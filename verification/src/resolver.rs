//! Parsing and resolving site addresses.
//!
//! Supported formats, in resolution order:
//! 1. a human name, `chiko` or `chiko@forum`: name store → pubkey → pointer
//!    store → hash;
//! 2. a pubkey, 64 lower-case hex characters not starting with `bafy`: looked
//!    up in the pointer store, or passed through when no pointer is known;
//! 3. anything else (typically a hash starting with `bafy`): passed through.

use vstd::prelude::*;
use vstd::string::{StrSliceExecFns, StringExecFns};

use crate::error::SisiError;
use crate::names::claim::NameClaimView;
use crate::names::laws::law_stored_claim_is_found;
use crate::names::store::{lookup, upsert_decision, upsert_effect, NameStore, UpsertResultView};

use crate::pointer::signed::SignedPointerView;
use crate::pointer::laws::law_superseding_pointer_is_found;
use crate::pointer::store::{pointer_for, pointer_supersedes, pointer_upsert_effect, PointerStore};
use crate::text::{
    find_char_exec, has_char, split_first, is_lower_hex_char, is_lower_hex_char_exec, is_unicode_whitespace,
    seq_starts_with, starts_with, strip_prefixes, strip_trailing, trim, trim_end_matches,
    trim_end_ws, trim_start_matches, trim_start_ws, trim_ws, utf8_len,
};

verus! {

/// `[a-z0-9_@-]`: characters legal in a name, `@` included.
pub open spec fn is_name_char(c: char) -> bool {
    ('a' <= c && c <= 'z') || ('0' <= c && c <= '9') || c == '_' || c == '-' || c == '@'
}

/// Non-empty and made only of name characters.
pub open spec fn name_chars_only(s: Seq<char>) -> bool {
    s.len() > 0 && forall|i: int| 0 <= i < s.len() ==> is_name_char(#[trigger] s[i])
}

/// 64 bytes of lower-case hex that do not start with `bafy`.
pub open spec fn pubkey_hex_shape(s: Seq<char>) -> bool {
    &&& utf8_len(s) == 64
    &&& forall|i: int| 0 <= i < s.len() ==> is_lower_hex_char(#[trigger] s[i])
    &&& !seq_starts_with(s, "bafy"@)
}

/// Looks like a human name: scoped (holds `@`), with both sides of the first
/// `@` non-empty, and made of name characters; or unscoped, at most 32 bytes,
/// not a `bafy` hash prefix, not a pubkey, and made of name characters.
pub open spec fn human_name_shape(s: Seq<char>) -> bool {
    if has_char(s, '@') {
        match split_first(s, '@') {
            Some((local, scope)) => local.len() > 0 && scope.len() > 0 && name_chars_only(s),
            None => false,
        }
    } else {
        utf8_len(s) <= 32 && !seq_starts_with(s, "bafy"@) && !pubkey_hex_shape(s) && name_chars_only(s)
    }
}

/// An address with surrounding whitespace, leading `sisi://` and trailing
/// slashes removed.
pub open spec fn stripped_address(addr: Seq<char>) -> Seq<char> {
    strip_trailing(strip_prefixes(trim_ws(addr), "sisi://"@), '/')
}

/// The first eight characters of a pubkey, or all of it when shorter.
pub open spec fn short_key(pubkey: Seq<char>) -> Seq<char> {
    if pubkey.len() >= 8 {
        pubkey.take(8)
    } else {
        pubkey
    }
}

/// The message when a name is not in the local name store.
pub open spec fn unknown_name_message(name: Seq<char>) -> Seq<char> {
    "name '"@ + name + "' is not in your local index \u{2014} subscribe to the relevant topic to discover it"@
}

/// The message when no pointer is stored for a pubkey.
pub open spec fn no_pointer_message(pubkey: Seq<char>) -> Seq<char> {
    "no pointer found for pubkey "@ + short_key(pubkey)
}

/// What resolving an address comes to.
pub enum Resolution {
    /// The manifest hash the address stands for.
    Hash(Seq<char>),
    /// A human name that the name store does not hold.
    UnknownName(Seq<char>),
    /// A pubkey (of a known name) with no stored pointer.
    NoPointer(Seq<char>),
}

/// Resolving a pubkey: the hash of its stored pointer.
pub open spec fn resolve_pubkey_spec(ptrs: Map<Seq<char>, SignedPointerView>, pubkey: Seq<char>) -> Resolution {
    match pointer_for(ptrs, pubkey) {
        Some(p) => Resolution::Hash(p.hash),
        None => Resolution::NoPointer(pubkey),
    }
}

/// Resolving an address against the local name and pointer stores.
pub open spec fn resolve_spec(
    names: Map<Seq<char>, NameClaimView>,
    ptrs: Map<Seq<char>, SignedPointerView>,
    addr: Seq<char>,
) -> Resolution {
    let s = stripped_address(addr);
    if human_name_shape(s) {
        match lookup(names, s) {
            Some(c) => resolve_pubkey_spec(ptrs, c.pubkey),
            None => Resolution::UnknownName(s),
        }
    } else if pubkey_hex_shape(s) {
        match pointer_for(ptrs, s) {
            Some(p) => Resolution::Hash(p.hash),
            None => Resolution::Hash(s),
        }
    } else {
        Resolution::Hash(s)
    }
}

/// The relation between a resolution and the value returned for it.
pub open spec fn resolution_returned(res: Resolution, r: Result<String, SisiError>) -> bool {
    match res {
        Resolution::Hash(h) => r matches Ok(x) && x@ == h,
        Resolution::UnknownName(n) => r matches Err(SisiError::InvalidAddress(m)) && m@
            == unknown_name_message(n),
        Resolution::NoPointer(pk) => r matches Err(SisiError::ManifestNotFound(m)) && m@
            == no_pointer_message(pk),
    }
}

/// Every character of `s` is legal in a name, and `s` is non-empty.
pub fn looks_like_name_chars(s: &str) -> (r: bool)
    ensures
        r == name_chars_only(s@),
{
    let n = s.unicode_len();
    if n == 0 {
        return false;
    }
    let mut i: usize = 0;
    while i < n
        invariant
            n == s@.len(),
            i <= n,
            forall|j: int| 0 <= j < i ==> is_name_char(#[trigger] s@[j]),
        decreases n - i,
    {
        let c = s.get_char(i);
        if !(('a' <= c && c <= 'z') || ('0' <= c && c <= '9') || c == '_' || c == '-' || c == '@') {
            return false;
        }
        i = i + 1;
    }
    true
}

/// Whether `s` looks like a raw ed25519 pubkey: 64 lower-case hex characters,
/// not starting with `bafy`.
pub fn is_pubkey_hex(s: &str) -> (r: bool)
    ensures
        r == pubkey_hex_shape(s@),
{
    if s.as_bytes().len() != 64 {
        return false;
    }
    let n = s.unicode_len();
    let mut i: usize = 0;
    while i < n
        invariant
            n == s@.len(),
            i <= n,
            forall|j: int| 0 <= j < i ==> is_lower_hex_char(#[trigger] s@[j]),
        decreases n - i,
    {
        if !is_lower_hex_char_exec(s.get_char(i)) {
            return false;
        }
        i = i + 1;
    }
    !starts_with(s, "bafy")
}

/// Whether the address looks like a human-readable name rather than a hash
/// or a pubkey.
pub fn is_human_name(s: &str) -> (r: bool)
    ensures
        r == human_name_shape(s@),
{
    match find_char_exec(s, '@') {
        Some(i) => {
            return i > 0 && i < s.unicode_len() - 1 && looks_like_name_chars(s);
        },
        None => {},
    }
    s.as_bytes().len() <= 32 && !starts_with(s, "bafy") && !is_pubkey_hex(s) && looks_like_name_chars(s)
}

/// The address with surrounding whitespace, a leading `sisi://` (repeated)
/// and trailing slashes removed.
pub fn strip_address(addr: &str) -> (r: &str)
    ensures
        r@ == stripped_address(addr@),
{
    let t = trim(addr);
    proof {
        reveal_strlit("sisi://");
    }
    let u = trim_start_matches(t, "sisi://");
    trim_end_matches(u, '/')
}

fn resolve_pubkey(pointers: &PointerStore, pubkey: &str) -> (r: Result<String, SisiError>)
    ensures
        resolution_returned(resolve_pubkey_spec(pointers@, pubkey@), r),
{
    match pointers.get(pubkey) {
        Some(p) => Ok(p.hash.clone()),
        None => {
            let n = pubkey.unicode_len();
            let short = if n >= 8 {
                pubkey.substring_char(0, 8)
            } else {
                pubkey
            };
            let mut msg = String::from_str("no pointer found for pubkey ");
            msg.append(short);
            proof {
                assert(short@ == short_key(pubkey@));
            }
            Err(SisiError::ManifestNotFound(msg))
        },
    }
}

/// Parse an address and resolve it to a manifest hash against the local
/// name store and pointer store.
pub fn parse_and_resolve(names: &NameStore, pointers: &PointerStore, addr: &str) -> (r: Result<
    String,
    SisiError,
>)
    ensures
        resolution_returned(resolve_spec(names@, pointers@, addr@), r),
{
    let stripped = strip_address(addr);
    if is_human_name(stripped) {
        return match names.resolve(stripped) {
            Some(pubkey) => resolve_pubkey(pointers, pubkey.as_str()),
            None => {
                let mut msg = String::from_str("name '");
                msg.append(stripped);
                msg.append("' is not in your local index \u{2014} subscribe to the relevant topic to discover it");
                Err(SisiError::InvalidAddress(msg))
            },
        };
    }
    if is_pubkey_hex(stripped) {
        return match pointers.get(stripped) {
            Some(p) => Ok(p.hash.clone()),
            None => Ok(String::from_str(stripped)),
        };
    }
    Ok(String::from_str(stripped))
}

/// The local gateway's base URL.
pub const GATEWAY_BASE: &'static str = "http://127.0.0.1:7777";

/// The gateway URL of the index page of the site an address resolves to.
pub fn resolve_to_gateway_url(names: &NameStore, pointers: &PointerStore, addr: &str) -> (r: Result<
    String,
    SisiError,
>)
    ensures
        match resolve_spec(names@, pointers@, addr@) {
            Resolution::Hash(h) => r matches Ok(url) && url@ == GATEWAY_BASE@ + "/site/"@ + h
                + "/index.html"@,
            res => resolution_returned(res, r),
        },
{
    match parse_and_resolve(names, pointers, addr) {
        Ok(hash) => {
            let mut url = String::from_str(GATEWAY_BASE);
            url.append("/site/");
            url.append(hash.as_str());
            url.append("/index.html");
            Ok(url)
        },
        Err(e) => Err(e),
    }
}

/// No address is taken both for a human name and for a pubkey.
pub proof fn law_name_and_pubkey_shapes_are_disjoint(s: Seq<char>)
    ensures
        !(human_name_shape(s) && pubkey_hex_shape(s)),
{
    if has_char(s, '@') && pubkey_hex_shape(s) {
        let i = choose|i: int| 0 <= i < s.len() && s[i] == '@';
        assert(is_lower_hex_char(s[i]));
    }
}

/// Every grammatical scoped name (`local@scope`) is read as a human name.
pub proof fn law_scoped_names_resolve_as_names(s: Seq<char>)
    requires
        crate::names::validate::name_check(s) is Ok,
        has_char(s, '@'),
    ensures
        human_name_shape(s),
{
    crate::text::lemma_find_char(s, '@');
    let i = crate::text::find_char(s, '@')->0;
    let local = s.take(i);
    let scope = s.skip(i + 1);
    assert forall|j: int| 0 <= j < s.len() implies is_name_char(#[trigger] s[j]) by {
        if j < i {
            assert(local[j] == s[j]);
            assert(crate::text::is_segment_char(local[j]));
        } else if j > i {
            assert(scope[j - i - 1] == s[j]);
            assert(crate::text::is_segment_char(scope[j - i - 1]));
        }
    }
}


/// An address made only of name characters needs no stripping.
proof fn lemma_name_chars_are_stripped(s: Seq<char>)
    requires
        name_chars_only(s),
    ensures
        stripped_address(s) == s,
{
    assert(!is_unicode_whitespace(s[0]));
    assert(!is_unicode_whitespace(s.last()));
    assert(trim_start_ws(s) == s);
    assert(trim_end_ws(s) == s);
    reveal_strlit("sisi://");
    if seq_starts_with(s, "sisi://"@) {
        assert(s.take(7)[4] == "sisi://"@[4]);
        assert(!is_name_char(s[4]));
    }
    assert(strip_prefixes(s, "sisi://"@) == s);
    assert(s.last() != '/');
}

/// What a read gives back of a write: once a name is claimed (any scoped
/// name, or an unscoped one that reads as a human name) and its owner's
/// pointer is stored, resolving the name gives the manifest hash of that
/// pointer.
pub proof fn law_claimed_name_resolves_to_site(
    names: Map<Seq<char>, NameClaimView>,
    ptrs: Map<Seq<char>, SignedPointerView>,
    c: NameClaimView,
    p: SignedPointerView,
)
    requires
        crate::names::validate::name_check(c.name) is Ok,
        has_char(c.name, '@') || human_name_shape(c.name),
        upsert_decision(lookup(names, c.name), c) matches UpsertResultView::Inserted
            || upsert_decision(lookup(names, c.name), c) matches UpsertResultView::Updated,
        p.pubkey == c.pubkey,
        pointer_supersedes(ptrs, p),
    ensures
        resolve_spec(upsert_effect(names, c), pointer_upsert_effect(ptrs, p), c.name) == Resolution::Hash(p.hash),
{
    if has_char(c.name, '@') {
        law_scoped_names_resolve_as_names(c.name);
    }
    lemma_name_chars_are_stripped(c.name);
    law_stored_claim_is_found(names, c);
    law_superseding_pointer_is_found(ptrs, p);
}


/// A known name resolves through its owner's pointer: for every address
/// that reads as a human name, scoped or not, whose claim is stored and
/// whose owner has a stored pointer, resolving it gives that pointer's
/// manifest hash.
pub proof fn law_known_name_resolves_through_pointer(
    names: Map<Seq<char>, NameClaimView>,
    ptrs: Map<Seq<char>, SignedPointerView>,
    name: Seq<char>,
    c: NameClaimView,
    p: SignedPointerView,
)
    requires
        human_name_shape(name),
        lookup(names, name) == Some(c),
        pointer_for(ptrs, c.pubkey) == Some(p),
    ensures
        resolve_spec(names, ptrs, name) == Resolution::Hash(p.hash),
{
    lemma_name_chars_are_stripped(name);
}

} // verus!
