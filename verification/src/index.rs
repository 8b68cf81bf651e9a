//! The local search index of visited sites: what the JSON description a
//! site publishes about itself contributes to its record, and how a new record is merged with a
//! stored one.

use vstd::prelude::*;
use vstd::string::StringExecFns;

verus! {

/// The JSON description a site may publish about itself, next to its pages.
#[derive(Debug, Default)]
pub struct SiteManifestJson {
    pub sisifo: Option<String>,
    pub name: Option<String>,
    pub short_name: Option<String>,
    pub description: Option<String>,
    pub keywords: Option<Vec<String>>,
    /// Path of the icon inside the site, e.g. `"/icon.png"`.
    pub icon: Option<String>,
    pub accent_color: Option<String>,
    pub author_pubkey: Option<String>,
    pub lang: Option<String>,
    pub category: Option<String>,
}

/// What the index keeps about a site.
#[derive(Debug)]
pub struct SiteRecord {
    pub hash: String,
    pub name: String,
    pub short_name: Option<String>,
    pub description: Option<String>,
    pub keywords: Vec<String>,
    /// Gateway URL of the icon.
    pub icon_url: Option<String>,
    pub author_pubkey: Option<String>,
    pub category: Option<String>,
    pub lang: Option<String>,
    pub accent_color: Option<String>,
    pub indexed_at: u64,
    pub visit_count: u64,
}

/// The text of an optional string.
pub open spec fn opt_view(o: Option<String>) -> Option<Seq<char>> {
    match o {
        Some(s) => Some(s@),
        None => None,
    }
}

/// The texts of a list of strings.
pub open spec fn strings_view(v: Seq<String>) -> Seq<Seq<char>> {
    v.map_values(|s: String| s@)
}

/// The mathematical value of a record.
pub struct SiteRecordView {
    pub hash: Seq<char>,
    pub name: Seq<char>,
    pub short_name: Option<Seq<char>>,
    pub description: Option<Seq<char>>,
    pub keywords: Seq<Seq<char>>,
    pub icon_url: Option<Seq<char>>,
    pub author_pubkey: Option<Seq<char>>,
    pub category: Option<Seq<char>>,
    pub lang: Option<Seq<char>>,
    pub accent_color: Option<Seq<char>>,
    pub indexed_at: u64,
    pub visit_count: u64,
}

impl View for SiteRecord {
    type V = SiteRecordView;

    open spec fn view(&self) -> SiteRecordView {
        SiteRecordView {
            hash: self.hash@,
            name: self.name@,
            short_name: opt_view(self.short_name),
            description: opt_view(self.description),
            keywords: strings_view(self.keywords@),
            icon_url: opt_view(self.icon_url),
            author_pubkey: opt_view(self.author_pubkey),
            category: opt_view(self.category),
            lang: opt_view(self.lang),
            accent_color: opt_view(self.accent_color),
            indexed_at: self.indexed_at,
            visit_count: self.visit_count,
        }
    }
}

/// A copy of an optional string.
pub fn clone_opt(o: &Option<String>) -> (r: Option<String>)
    ensures
        opt_view(r) == opt_view(*o),
{
    match o {
        Some(s) => Some(s.clone()),
        None => None,
    }
}

/// A copy of a list of strings.
pub fn clone_strings(v: &Vec<String>) -> (r: Vec<String>)
    ensures
        strings_view(r@) == strings_view(v@),
{
    let n = v.len();
    let mut out: Vec<String> = Vec::new();
    let mut i: usize = 0;
    while i < n
        invariant
            n == v@.len(),
            i <= n,
            strings_view(out@) == strings_view(v@).take(i as int),
        decreases n - i,
    {
        let s = v[i].clone();
        let ghost prev = out@;
        out.push(s);
        assert(strings_view(out@) =~= strings_view(prev).push(s@));
        assert(strings_view(v@).take(i + 1) =~= strings_view(v@).take(i as int).push(v@[i as int]@));
        i = i + 1;
    }
    assert(strings_view(v@).take(n as int) =~= strings_view(v@));
    out
}

impl Clone for SiteRecord {
    fn clone(&self) -> (r: Self)
        ensures
            r@ == self@,
    {
        SiteRecord {
            hash: self.hash.clone(),
            name: self.name.clone(),
            short_name: clone_opt(&self.short_name),
            description: clone_opt(&self.description),
            keywords: clone_strings(&self.keywords),
            icon_url: clone_opt(&self.icon_url),
            author_pubkey: clone_opt(&self.author_pubkey),
            category: clone_opt(&self.category),
            lang: clone_opt(&self.lang),
            accent_color: clone_opt(&self.accent_color),
            indexed_at: self.indexed_at,
            visit_count: self.visit_count,
        }
    }
}

/// The gateway URL of a file at `path` inside the site `hash`:
/// `{gateway_base}/site/{hash}{path}`.
pub open spec fn site_file_url(gateway_base: Seq<char>, hash: Seq<char>, path: Seq<char>) -> Seq<char> {
    gateway_base + "/site/"@ + hash + path
}

/// The record a site's manifest yields when the site `hash` is indexed at
/// time `indexed_at`, or `None` when the manifest gives no non-empty name.
pub open spec fn record_of(
    hash: Seq<char>,
    gateway_base: Seq<char>,
    m: SiteManifestJson,
    indexed_at: u64,
) -> Option<SiteRecordView> {
    match m.name {
        Some(n) if n@.len() > 0 => Some(
            SiteRecordView {
                hash,
                name: n@,
                short_name: opt_view(m.short_name),
                description: opt_view(m.description),
                keywords: match m.keywords {
                    Some(k) => strings_view(k@),
                    None => Seq::empty(),
                },
                icon_url: match m.icon {
                    Some(p) => Some(site_file_url(gateway_base, hash, p@)),
                    None => None,
                },
                author_pubkey: opt_view(m.author_pubkey),
                category: opt_view(m.category),
                lang: opt_view(m.lang),
                accent_color: opt_view(m.accent_color),
                indexed_at,
                visit_count: 1,
            },
        ),
        _ => None,
    }
}

/// The record of the site `hash`, served by the gateway at `gateway_base`,
/// from the JSON description it publishes, indexed at `indexed_at`: `None` when the
/// manifest gives no name (the site is not worth indexing).
pub fn record_from_manifest(site_hash: &str, gateway_base: &str, manifest: SiteManifestJson, indexed_at: u64) -> (r:
    Option<SiteRecord>)
    ensures
        match record_of(site_hash@, gateway_base@, manifest, indexed_at) {
            Some(v) => r matches Some(x) && x@ == v,
            None => r is None,
        },
{
    let ghost m = manifest;
    let SiteManifestJson {
        sisifo: _,
        name,
        short_name,
        description,
        keywords,
        icon,
        accent_color,
        author_pubkey,
        lang,
        category,
    } = manifest;
    let name = match name {
        Some(n) => {
            if n.unicode_len() == 0 {
                return None;
            }
            n
        },
        None => {
            return None;
        },
    };
    let icon_url = match icon {
        Some(path) => {
            let mut url = String::from_str(gateway_base);
            url.append("/site/");
            url.append(site_hash);
            url.append(path.as_str());
            Some(url)
        },
        None => None,
    };
    let keywords = match keywords {
        Some(k) => k,
        None => Vec::new(),
    };
    let r = SiteRecord {
        hash: String::from_str(site_hash),
        name,
        short_name,
        description,
        keywords,
        icon_url,
        author_pubkey,
        category,
        lang,
        accent_color,
        indexed_at,
        visit_count: 1,
    };
    assert(r@.keywords =~= record_of(site_hash@, gateway_base@, m, indexed_at).unwrap().keywords);
    Some(r)
}

/// The stored record after `incoming` is indexed: `incoming` itself when
/// nothing was stored for the site; otherwise the stored record with its
/// name, description, keywords, icon and index time taken from `incoming`
/// and one more visit.
pub open spec fn merged_record(existing: Option<SiteRecordView>, incoming: SiteRecordView) -> SiteRecordView {
    match existing {
        None => incoming,
        Some(e) => SiteRecordView {
            name: incoming.name,
            description: incoming.description,
            keywords: incoming.keywords,
            icon_url: incoming.icon_url,
            indexed_at: incoming.indexed_at,
            visit_count: (e.visit_count + 1) as u64,
            ..e
        },
    }
}

/// The record to store when `incoming` is indexed and `existing` is what
/// is stored for the same site.
pub fn merge_record(existing: Option<&SiteRecord>, incoming: &SiteRecord) -> (r: SiteRecord)
    requires
        existing matches Some(e) ==> e.visit_count < u64::MAX,
    ensures
        r@ == merged_record(
            match existing {
                Some(e) => Some(e@),
                None => None,
            },
            incoming@,
        ),
{
    match existing {
        None => incoming.clone(),
        Some(e) => {
            let mut r = e.clone();
            r.name = incoming.name.clone();
            r.description = clone_opt(&incoming.description);
            r.keywords = clone_strings(&incoming.keywords);
            r.icon_url = clone_opt(&incoming.icon_url);
            r.indexed_at = incoming.indexed_at;
            r.visit_count = e.visit_count + 1;
            r
        },
    }
}


/// The list of strings that `serde_json::from_str::<Vec<String>>` reads from
/// `text`, or `None` when the text is not a JSON array of strings.
pub uninterp spec fn json_string_list(text: Seq<char>) -> Option<Seq<Seq<char>>>;

/// `serde_json::from_str::<Vec<String>>(text).ok()`.
/// Trusted: the result is the named reading of `text`.
#[verifier::external_body]
fn decode_string_list(text: &str) -> (r: Option<Vec<String>>)
    ensures
        match r {
            Some(v) => json_string_list(text@) == Some(strings_view(v@)),
            None => json_string_list(text@) is None,
        },
{
    serde_json::from_str::<Vec<String>>(text).ok()
}

/// The record made of the columns of a row, with the keywords already read
/// from their JSON text (`None`, when they did not read, gives no keywords)
/// and the two integer columns read as unsigned.
pub fn record_from_columns(
    hash: String,
    name: String,
    short_name: Option<String>,
    description: Option<String>,
    keywords: Option<Vec<String>>,
    icon_url: Option<String>,
    author_pubkey: Option<String>,
    category: Option<String>,
    lang: Option<String>,
    accent_color: Option<String>,
    indexed_at: i64,
    visit_count: i64,
) -> (r: SiteRecord)
    ensures
        r.hash == hash,
        r.name == name,
        r.short_name == short_name,
        r.description == description,
        r@.keywords == match keywords {
            Some(k) => strings_view(k@),
            None => Seq::<Seq<char>>::empty(),
        },
        r.icon_url == icon_url,
        r.author_pubkey == author_pubkey,
        r.category == category,
        r.lang == lang,
        r.accent_color == accent_color,
        r.indexed_at == indexed_at as u64,
        r.visit_count == visit_count as u64,
{
    let keywords = match keywords {
        Some(k) => k,
        None => {
            let v: Vec<String> = Vec::new();
            assert(strings_view(v@) =~= Seq::<Seq<char>>::empty());
            v
        },
    };
    SiteRecord {
        hash,
        name,
        short_name,
        description,
        keywords,
        icon_url,
        author_pubkey,
        category,
        lang,
        accent_color,
        indexed_at: indexed_at as u64,
        visit_count: visit_count as u64,
    }
}

/// The record stored in a row of the index: the columns as they are, the
/// keywords decoded from their JSON text (none when it does not decode),
/// and the two integer columns read as unsigned.
pub fn record_from_row(
    hash: String,
    name: String,
    short_name: Option<String>,
    description: Option<String>,
    keywords_json: &str,
    icon_url: Option<String>,
    author_pubkey: Option<String>,
    category: Option<String>,
    lang: Option<String>,
    accent_color: Option<String>,
    indexed_at: i64,
    visit_count: i64,
) -> (r: SiteRecord)
    ensures
        r.hash == hash,
        r.name == name,
        r.short_name == short_name,
        r.description == description,
        r@.keywords == match json_string_list(keywords_json@) {
            Some(k) => k,
            None => Seq::<Seq<char>>::empty(),
        },
        r.icon_url == icon_url,
        r.author_pubkey == author_pubkey,
        r.category == category,
        r.lang == lang,
        r.accent_color == accent_color,
        r.indexed_at == indexed_at as u64,
        r.visit_count == visit_count as u64,
{
    let keywords = decode_string_list(keywords_json);
    record_from_columns(
        hash,
        name,
        short_name,
        description,
        keywords,
        icon_url,
        author_pubkey,
        category,
        lang,
        accent_color,
        indexed_at,
        visit_count,
    )
}


/// Indexing a site again refreshes what its description says (name,
/// description, keywords, icon and index time come from the new record),
/// keeps what was stored of the rest, and counts one more visit; indexing a
/// site for the first time stores the new record as it is.
pub proof fn law_reindexing_refreshes_and_counts(existing: Option<SiteRecordView>, incoming: SiteRecordView)
    ensures
        existing is None ==> merged_record(existing, incoming) == incoming,
        existing matches Some(e) ==> {
            let r = merged_record(existing, incoming);
            &&& r.name == incoming.name
            &&& r.description == incoming.description
            &&& r.keywords == incoming.keywords
            &&& r.icon_url == incoming.icon_url
            &&& r.indexed_at == incoming.indexed_at
            &&& e.visit_count < u64::MAX ==> r.visit_count == e.visit_count + 1
            &&& r.hash == e.hash
            &&& r.short_name == e.short_name
            &&& r.author_pubkey == e.author_pubkey
            &&& r.category == e.category
            &&& r.lang == e.lang
            &&& r.accent_color == e.accent_color
        },
{
}

} // verus!
