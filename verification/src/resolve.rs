//! The resolver: from the filesystem facts for a request — the canonical
//! form of the root and what the filesystem says about the joined
//! candidate — it decides which absolute path, if any, may be touched.
//!
//! The caller (the embedding application) gathers the facts: it canonicalizes
//! the root, joins the candidate with [`crate::path::join_under_root`], and
//! reports the candidate's state as a [`TargetFact`]. The verdict itself is
//! purely lexical and fails closed: whenever a fact is missing or a path falls
//! outside the root, the answer is `None` and no I/O may happen.

use vstd::prelude::*;

use crate::path::path_contains;

verus! {

/// What the filesystem says about the joined candidate path.
pub enum TargetFact {
    /// The candidate names no existing entry; a write would create it.
    Missing,
    /// The candidate exists and canonicalizes (symlinks and relative
    /// segments resolved) to the carried absolute path.
    Resolved(String),
    /// The candidate exists but could not be canonicalized.
    Unresolvable,
}

/// Decides which path, if any, may be touched; `None` means rejection.
///
/// An existing target is judged by its canonical form, which defeats a
/// symlink inside the root that points outside it. A missing target is
/// judged by the lexically normalized candidate itself — the narrower
/// create-new-file guarantee, which defeats `..` traversal but does not
/// resolve symlinks in intermediate directories.
pub open spec fn verdict_of(
    canonical_root: Option<Seq<char>>,
    candidate: Seq<char>,
    target: TargetFact,
) -> Option<Seq<char>> {
    match canonical_root {
        Option::None => Option::None,
        Option::Some(root) => match target {
            TargetFact::Unresolvable => Option::None,
            TargetFact::Resolved(resolved) => if path_contains(root, resolved@) {
                Option::Some(resolved@)
            } else {
                Option::None
            },
            TargetFact::Missing => if path_contains(root, candidate) {
                Option::Some(candidate)
            } else {
                Option::None
            },
        },
    }
}

/// Decides the verdict for one request.
///
/// `canonical_root` is the canonical form of the sandbox root, or `None`
/// when the root itself could not be canonicalized — in which case every
/// request is rejected. `candidate` is the joined candidate path and
/// `target` the filesystem's report on it.
pub fn resolve_verdict(
    canonical_root: &Option<String>,
    candidate: &str,
    target: &TargetFact,
) -> (v: Option<String>)
    ensures
        v.deep_view() == verdict_of(canonical_root.deep_view(), candidate@, *target),
{
    match canonical_root {
        Option::None => Option::None,
        Option::Some(root) => match target {
            TargetFact::Unresolvable => Option::None,
            TargetFact::Resolved(resolved) => {
                if crate::path::is_contained(root.as_str(), resolved.as_str()) {
                    Option::Some(resolved.clone())
                } else {
                    Option::None
                }
            },
            TargetFact::Missing => {
                if crate::path::is_contained(root.as_str(), candidate) {
                    Option::Some(String::from_str(candidate))
                } else {
                    Option::None
                }
            },
        },
    }
}

/// Fail-closed containment: every path the resolver ever accepts is
/// contained in the canonical root. No verdict admits a path outside the
/// sandbox, whatever the facts were.
pub proof fn lemma_verdict_contained(
    canonical_root: Option<Seq<char>>,
    candidate: Seq<char>,
    target: TargetFact,
)
    ensures
        verdict_of(canonical_root, candidate, target) matches Some(p) ==> canonical_root matches Some(root)
            && path_contains(root, p),
{
}

/// An invalid root rejects every request: when the root cannot be
/// canonicalized, no facts about the target can produce a verdict.
pub proof fn lemma_invalid_root_rejects(candidate: Seq<char>, target: TargetFact)
    ensures
        verdict_of(Option::None, candidate, target) is None,
{
}

/// A candidate that lies within the root and names no existing entry is
/// accepted, as itself: creation inside the sandbox is allowed.
pub proof fn lemma_contained_candidate_accepted(root: Seq<char>, candidate: Seq<char>)
    requires
        path_contains(root, candidate),
    ensures
        verdict_of(Option::Some(root), candidate, TargetFact::Missing) == Option::Some(candidate),
{
}

/// Success is owed for creation: a filename free of traversal components,
/// joined under an absolute root whose own components are traversal-free —
/// as a canonicalized root's are — is always accepted, as the joined
/// candidate itself.
pub proof fn lemma_clean_filename_accepted(root: Seq<char>, requested: Seq<char>)
    requires
        crate::path::is_absolute(root),
        crate::path::dot_free(crate::path::components_of(root)),
        crate::path::dot_free(crate::path::components_of(requested)),
    ensures
        verdict_of(
            Option::Some(root),
            crate::path::joined(root, requested),
            TargetFact::Missing,
        ) == Option::Some(crate::path::joined(root, requested)),
{
    crate::path::lemma_clean_join_contained(root, requested);
}

/// A candidate that names no existing entry and escapes the root — for
/// instance through `..` segments that normalize to a location outside it —
/// is rejected.
pub proof fn lemma_escaping_candidate_rejected(root: Seq<char>, candidate: Seq<char>)
    requires
        !path_contains(root, candidate),
    ensures
        verdict_of(Option::Some(root), candidate, TargetFact::Missing) is None,
{
}

/// An existing target whose canonical form lies outside the root is
/// rejected — in particular a symlink inside the sandbox whose true target
/// is outside it, since the fact carries the resolved path, not the link's
/// literal location.
pub proof fn lemma_escaped_target_rejected(root: Seq<char>, candidate: Seq<char>, resolved: String)
    requires
        !path_contains(root, resolved@),
    ensures
        verdict_of(Option::Some(root), candidate, TargetFact::Resolved(resolved)) is None,
{
}

} // verus!
