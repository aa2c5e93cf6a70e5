//! An abstract model of the storage behind the library: a map from absolute
//! path to contents. A gated write is modeled as create-or-truncate — the
//! path is bound to exactly the new contents — and a read as a lookup.
//!
//! The laws here state what a gated write guarantees of storage it is
//! allowed to touch: a read of the freshly written path returns the written
//! contents unchanged; writing the same contents twice leaves the same store
//! as writing once; and a write through an accepted verdict leaves every
//! path outside the root exactly as it was.

use vstd::prelude::*;

use crate::path::path_contains;
use crate::resolve::{verdict_of, TargetFact};

verus! {

/// The store after an unconditional write: `p` is bound to `content`, all
/// other paths keep their contents.
pub open spec fn store_after_write(
    store: Map<Seq<char>, Seq<char>>,
    p: Seq<char>,
    content: Seq<char>,
) -> Map<Seq<char>, Seq<char>> {
    store.insert(p, content)
}

/// What a read of `p` returns: the stored contents, or nothing when no
/// file with that path exists.
pub open spec fn store_read(store: Map<Seq<char>, Seq<char>>, p: Seq<char>) -> Option<Seq<char>> {
    if store.dom().contains(p) {
        Option::Some(store[p])
    } else {
        Option::None
    }
}

/// Round trip: a write followed by a read of the same path returns the
/// written contents unchanged, whatever the store held before.
pub proof fn lemma_write_read_round_trip(
    store: Map<Seq<char>, Seq<char>>,
    p: Seq<char>,
    content: Seq<char>,
)
    ensures
        store_read(store_after_write(store, p, content), p) == Option::Some(content),
{
}

/// Idempotence: writing identical contents to the same path twice yields
/// the same final store as writing once.
pub proof fn lemma_write_idempotent(
    store: Map<Seq<char>, Seq<char>>,
    p: Seq<char>,
    content: Seq<char>,
)
    ensures
        store_after_write(store_after_write(store, p, content), p, content) == store_after_write(
            store,
            p,
            content,
        ),
{
    assert(store_after_write(store_after_write(store, p, content), p, content)
        =~= store_after_write(store, p, content));
}

/// Locality: a write changes no path other than its own target.
pub proof fn lemma_write_preserves_others(
    store: Map<Seq<char>, Seq<char>>,
    p: Seq<char>,
    content: Seq<char>,
    other: Seq<char>,
)
    requires
        other != p,
    ensures
        store_read(store_after_write(store, p, content), other) == store_read(store, other),
{
}

/// Round trip for a new file: when the joined candidate of
/// the root and a filename lies within the root, the resolver accepts the
/// candidate itself, and reading that verified path right after writing
/// returns the written contents unchanged.
pub proof fn lemma_gate_write_read_round_trip(
    root: Seq<char>,
    filename: Seq<char>,
    store: Map<Seq<char>, Seq<char>>,
    content: Seq<char>,
)
    requires
        path_contains(root, crate::path::joined(root, filename)),
    ensures
        verdict_of(
            Option::Some(root),
            crate::path::joined(root, filename),
            TargetFact::Missing,
        ) == Option::Some(crate::path::joined(root, filename)),
        store_read(
            store_after_write(store, crate::path::joined(root, filename), content),
            crate::path::joined(root, filename),
        ) == Option::Some(content),
{
}

/// No escape: a write performed through an accepted verdict leaves every
/// path outside the canonical root exactly as it was. In particular no file
/// appears outside the sandbox, whatever filename the caller supplied.
pub proof fn lemma_no_write_outside_root(
    root: Seq<char>,
    candidate: Seq<char>,
    target: TargetFact,
    verified: Seq<char>,
    store: Map<Seq<char>, Seq<char>>,
    content: Seq<char>,
    outside: Seq<char>,
)
    requires
        verdict_of(Option::Some(root), candidate, target) == Option::Some(verified),
        !path_contains(root, outside),
    ensures
        store_read(store_after_write(store, verified, content), outside) == store_read(
            store,
            outside,
        ),
{
    crate::resolve::lemma_verdict_contained(Option::Some(root), candidate, target);
    assert(path_contains(root, verified));
    assert(outside != verified);
}

} // verus!
