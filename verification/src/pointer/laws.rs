//! Properties of the pointer store's version rule.

use vstd::prelude::*;

use crate::pointer::signed::SignedPointerView;
use crate::pointer::store::{pointer_for, pointer_supersedes, pointer_upsert_effect};

verus! {

/// A pointer that supersedes what is stored is what a later lookup gives.
pub proof fn law_superseding_pointer_is_found(m: Map<Seq<char>, SignedPointerView>, p: SignedPointerView)
    requires
        pointer_supersedes(m, p),
    ensures
        pointer_for(pointer_upsert_effect(m, p), p.pubkey) == Some(p),
{
}

/// The version stored for an owner never decreases, and other owners are
/// untouched.
pub proof fn law_stored_version_never_decreases(
    m: Map<Seq<char>, SignedPointerView>,
    p: SignedPointerView,
    k: Seq<char>,
)
    requires
        m.dom().contains(k),
    ensures
        pointer_upsert_effect(m, p).dom().contains(k),
        pointer_upsert_effect(m, p)[k].version >= m[k].version,
        k != p.pubkey ==> pointer_upsert_effect(m, p)[k] == m[k],
{
}

/// Two pointers for one owner with different versions leave the same pointer
/// stored whichever arrives first: the newest version wins.
pub proof fn law_newest_version_wins_in_any_order(
    m: Map<Seq<char>, SignedPointerView>,
    p1: SignedPointerView,
    p2: SignedPointerView,
)
    requires
        p1.pubkey == p2.pubkey,
        p1.version != p2.version,
    ensures
        pointer_for(pointer_upsert_effect(pointer_upsert_effect(m, p1), p2), p1.pubkey) == pointer_for(
            pointer_upsert_effect(pointer_upsert_effect(m, p2), p1),
            p1.pubkey,
        ),
{
}

} // verus!
