//! Lexical path model: splitting a path string into components, normalizing
//! `.` and `..` segments, joining an untrusted filename under a root, and the
//! component-wise containment test that defines the sandbox boundary.

use vstd::prelude::*;

verus! {

/// The path separator this library understands.
pub open spec fn sep_char() -> char {
    '/'
}

/// The component that names the current directory.
pub open spec fn cur_dir() -> Seq<char> {
    seq!['.']
}

/// The component that names the parent directory.
pub open spec fn parent_dir() -> Seq<char> {
    seq!['.', '.']
}

/// A path is absolute when it starts with a separator.
pub open spec fn is_absolute(s: Seq<char>) -> bool {
    s.len() > 0 && s[0] == sep_char()
}

/// One step of the splitting scan: characters of `s` from index `i` on are
/// still to be read, `cur` holds the run of non-separator characters read so
/// far, and `out` holds the completed components.
pub open spec fn split_from(s: Seq<char>, i: int, cur: Seq<char>, out: Seq<Seq<char>>) -> Seq<
    Seq<char>,
>
    decreases s.len() - i,
{
    if i < 0 || i >= s.len() {
        if cur.len() > 0 {
            out.push(cur)
        } else {
            out
        }
    } else if s[i] == sep_char() {
        if cur.len() > 0 {
            split_from(s, i + 1, Seq::empty(), out.push(cur))
        } else {
            split_from(s, i + 1, cur, out)
        }
    } else {
        split_from(s, i + 1, cur.push(s[i]), out)
    }
}

/// The components of a path string: its maximal nonempty runs of
/// non-separator characters, in order. Empty runs (repeated separators,
/// leading or trailing separators) contribute nothing.
pub open spec fn components_of(s: Seq<char>) -> Seq<Seq<char>> {
    split_from(s, 0, Seq::empty(), Seq::empty())
}

/// Whether a path string starts with the separator.
pub fn path_is_absolute(s: &str) -> (r: bool)
    ensures
        r == is_absolute(s@),
{
    if s.is_empty() {
        false
    } else {
        s.get_char(0) == '/'
    }
}

/// Splits a path string into its components.
pub fn split_components(s: &str) -> (out: Vec<String>)
    ensures
        out.deep_view() == components_of(s@),
{
    let n: usize = s.unicode_len();
    let mut out: Vec<String> = Vec::new();
    let mut start: usize = 0;
    let mut i: usize = 0;
    proof {
        assert(s@.subrange(0, 0) =~= Seq::<char>::empty());
        assert(out.deep_view() =~~= Seq::<Seq<char>>::empty());
    }
    while i < n
        invariant
            n == s@.len(),
            start <= i <= n,
            components_of(s@) == split_from(
                s@,
                i as int,
                s@.subrange(start as int, i as int),
                out.deep_view(),
            ),
        decreases n - i,
    {
        let ghost i0 = i as int;
        let ghost prev_out = out.deep_view();
        let ghost cur = s@.subrange(start as int, i as int);
        let c = s.get_char(i);
        if c == '/' {
            if start < i {
                let comp = String::from_str(s.substring_char(start, i));
                out.push(comp);
                proof {
                    assert(out.deep_view() =~~= prev_out.push(cur));
                }
            }
            start = i + 1;
        }
        i = i + 1;
        proof {
            let new_cur = s@.subrange(start as int, i as int);
            if c == sep_char() {
                assert(new_cur =~= Seq::<char>::empty());
                if cur.len() > 0 {
                    assert(split_from(s@, i0, cur, prev_out) == split_from(
                        s@,
                        i0 + 1,
                        Seq::<char>::empty(),
                        prev_out.push(cur),
                    ));
                } else {
                    assert(cur =~= Seq::<char>::empty());
                    assert(split_from(s@, i0, cur, prev_out) == split_from(
                        s@,
                        i0 + 1,
                        cur,
                        prev_out,
                    ));
                }
            } else {
                assert(new_cur =~= cur.push(c));
                assert(split_from(s@, i0, cur, prev_out) == split_from(
                    s@,
                    i0 + 1,
                    cur.push(c),
                    prev_out,
                ));
            }
        }
    }
    let ghost cur = s@.subrange(start as int, n as int);
    let ghost prev_out = out.deep_view();
    if start < n {
        let comp = String::from_str(s.substring_char(start, n));
        out.push(comp);
        proof {
            assert(out.deep_view() =~~= prev_out.push(cur));
        }
    }
    out
}

/// One step of lexical normalization: components of `comps` from index `i` on
/// are still to be processed and `acc` holds the normalized prefix. A `.`
/// component is dropped; a `..` component cancels the preceding real
/// component, stays at the top of an absolute path, and is kept at the front
/// of a relative path.
pub open spec fn normalize_from(
    comps: Seq<Seq<char>>,
    i: int,
    acc: Seq<Seq<char>>,
    absolute: bool,
) -> Seq<Seq<char>>
    decreases comps.len() - i,
{
    if i < 0 || i >= comps.len() {
        acc
    } else {
        let c = comps[i];
        if c == cur_dir() {
            normalize_from(comps, i + 1, acc, absolute)
        } else if c == parent_dir() {
            if acc.len() > 0 && acc.last() != parent_dir() {
                normalize_from(comps, i + 1, acc.drop_last(), absolute)
            } else if absolute {
                normalize_from(comps, i + 1, acc, absolute)
            } else {
                normalize_from(comps, i + 1, acc.push(c), absolute)
            }
        } else {
            normalize_from(comps, i + 1, acc.push(c), absolute)
        }
    }
}

/// The lexically normalized form of a component sequence: no `.` components,
/// and `..` components only where a relative path begins by climbing.
pub open spec fn normalized(comps: Seq<Seq<char>>, absolute: bool) -> Seq<Seq<char>> {
    normalize_from(comps, 0, Seq::empty(), absolute)
}

/// Normalizes a component sequence, resolving `.` and `..` lexically.
pub fn normalize_components(comps: &Vec<String>, absolute: bool) -> (out: Vec<String>)
    ensures
        out.deep_view() == normalized(comps.deep_view(), absolute),
{
    let dot: String = String::from_str(".");
    let dotdot: String = String::from_str("..");
    proof {
        reveal_strlit(".");
        reveal_strlit("..");
        assert(dot@ =~= cur_dir());
        assert(dotdot@ =~= parent_dir());
    }
    let mut out: Vec<String> = Vec::new();
    let mut i: usize = 0;
    proof {
        assert(out.deep_view() =~~= Seq::<Seq<char>>::empty());
    }
    while i < comps.len()
        invariant
            i <= comps.len(),
            dot@ == cur_dir(),
            dotdot@ == parent_dir(),
            normalized(comps.deep_view(), absolute) == normalize_from(
                comps.deep_view(),
                i as int,
                out.deep_view(),
                absolute,
            ),
        decreases comps.len() - i,
    {
        let ghost i0 = i as int;
        let ghost acc = out.deep_view();
        let ghost cv = comps.deep_view()[i as int];
        let c = &comps[i];
        if *c == dot {
            proof {
                assert(normalize_from(comps.deep_view(), i0, acc, absolute) == normalize_from(
                    comps.deep_view(),
                    i0 + 1,
                    acc,
                    absolute,
                ));
            }
        } else if *c == dotdot {
            if out.len() > 0 && !(out[out.len() - 1] == dotdot) {
                out.pop();
                proof {
                    assert(out.deep_view() =~~= acc.drop_last());
                    assert(normalize_from(comps.deep_view(), i0, acc, absolute) == normalize_from(
                        comps.deep_view(),
                        i0 + 1,
                        acc.drop_last(),
                        absolute,
                    ));
                }
            } else if absolute {
                proof {
                    assert(normalize_from(comps.deep_view(), i0, acc, absolute) == normalize_from(
                        comps.deep_view(),
                        i0 + 1,
                        acc,
                        absolute,
                    ));
                }
            } else {
                out.push(dotdot.clone());
                proof {
                    assert(out.deep_view() =~~= acc.push(cv));
                    assert(normalize_from(comps.deep_view(), i0, acc, absolute) == normalize_from(
                        comps.deep_view(),
                        i0 + 1,
                        acc.push(cv),
                        absolute,
                    ));
                }
            }
        } else {
            out.push(c.clone());
            proof {
                assert(out.deep_view() =~~= acc.push(cv));
                assert(normalize_from(comps.deep_view(), i0, acc, absolute) == normalize_from(
                    comps.deep_view(),
                    i0 + 1,
                    acc.push(cv),
                    absolute,
                ));
            }
        }
        i = i + 1;
    }
    out
}

/// Whether the components of `root` are a prefix of the components of
/// `target`, element for element.
pub fn components_prefix(root: &Vec<String>, target: &Vec<String>) -> (r: bool)
    ensures
        r == root.deep_view().is_prefix_of(target.deep_view()),
{
    if root.len() > target.len() {
        proof {
            assert(!root.deep_view().is_prefix_of(target.deep_view()));
        }
        return false;
    }
    let mut i: usize = 0;
    while i < root.len()
        invariant
            i <= root.len() <= target.len(),
            root@.len() == root.deep_view().len(),
            target@.len() == target.deep_view().len(),
            forall|j: int|
                0 <= j < i ==> root.deep_view()[j] == target.deep_view()[j],
        decreases root.len() - i,
    {
        if !(root[i] == target[i]) {
            proof {
                assert(root.deep_view()[i as int] != target.deep_view()[i as int]);
                assert(!root.deep_view().is_prefix_of(target.deep_view()));
            }
            return false;
        }
        i = i + 1;
    }
    proof {
        assert(root.deep_view() =~~= target.deep_view().subrange(
            0,
            root.deep_view().len() as int,
        ));
    }
    true
}

/// The normalized components of a path string.
pub open spec fn norm_of(s: Seq<char>) -> Seq<Seq<char>> {
    normalized(components_of(s), is_absolute(s))
}

/// The containment test that defines the sandbox boundary: `target` lies at
/// or under `root` when both agree on absoluteness and the normalized
/// components of `root` are a component-wise prefix of those of `target`.
/// This is not a string-prefix test: a sibling directory whose name merely
/// starts with the root's name is not contained.
pub open spec fn path_contains(root: Seq<char>, target: Seq<char>) -> bool {
    is_absolute(root) == is_absolute(target) && norm_of(root).is_prefix_of(norm_of(target))
}

/// Containment is component-wise, not a string-prefix test: whenever the
/// first normalized components of root and target differ, the target is not
/// contained — however closely the target's text resembles the root's, as
/// with a sibling directory whose name extends the root's name.
pub proof fn lemma_sibling_not_contained(root: Seq<char>, target: Seq<char>)
    requires
        norm_of(root).len() > 0,
        norm_of(target).len() == 0 || norm_of(root)[0] != norm_of(target)[0],
    ensures
        !path_contains(root, target),
{
    if norm_of(root).is_prefix_of(norm_of(target)) {
        assert(norm_of(root) =~= norm_of(target).subrange(0, norm_of(root).len() as int));
        assert(norm_of(root)[0] == norm_of(target)[0]);
    }
}

/// Decides containment of `target` at or under `root`.
pub fn is_contained(root: &str, target: &str) -> (r: bool)
    ensures
        r == path_contains(root@, target@),
{
    let ra = path_is_absolute(root);
    let ta = path_is_absolute(target);
    if ra != ta {
        return false;
    }
    let rc = split_components(root);
    let tc = split_components(target);
    let rn = normalize_components(&rc, ra);
    let tn = normalize_components(&tc, ta);
    components_prefix(&rn, &tn)
}

/// The candidate path for a request: the root, a separator, then the
/// requested name. Joining never lets the request replace the root: a
/// leading separator in `requested` only adds an empty run, which splitting
/// discards, so an absolute-looking request is still interpreted relative to
/// the root.
pub open spec fn joined(root: Seq<char>, requested: Seq<char>) -> Seq<char> {
    root + seq![sep_char()] + requested
}

/// A component sequence with no `.` and no `..` components: one that
/// lexical normalization leaves unchanged.
pub open spec fn dot_free(comps: Seq<Seq<char>>) -> bool {
    forall|k: int| 0 <= k < comps.len() ==> comps[k] != cur_dir() && comps[k] != parent_dir()
}

/// Scanning the right half of a join picks up at the corresponding index of
/// the requested name alone.
proof fn lemma_split_shift(
    s: Seq<char>,
    t: Seq<char>,
    j: int,
    cur: Seq<char>,
    out: Seq<Seq<char>>,
)
    requires
        0 <= j <= t.len(),
    ensures
        split_from(s + seq![sep_char()] + t, s.len() + 1 + j, cur, out) == split_from(
            t,
            j,
            cur,
            out,
        ),
    decreases t.len() - j,
{
    let u = s + seq![sep_char()] + t;
    assert(u.len() == s.len() + 1 + t.len());
    if j < t.len() {
        assert(u[s.len() + 1 + j] == t[j]);
        if t[j] == sep_char() {
            if cur.len() > 0 {
                lemma_split_shift(s, t, j + 1, Seq::empty(), out.push(cur));
            } else {
                lemma_split_shift(s, t, j + 1, cur, out);
            }
        } else {
            lemma_split_shift(s, t, j + 1, cur.push(t[j]), out);
        }
    }
}

/// Scanning a join from inside the root half first finishes the root's scan
/// — the separator flushes any open run — and then scans the requested name
/// from a fresh state.
proof fn lemma_split_concat_scan(
    s: Seq<char>,
    t: Seq<char>,
    i: int,
    cur: Seq<char>,
    out: Seq<Seq<char>>,
)
    requires
        0 <= i <= s.len(),
    ensures
        split_from(s + seq![sep_char()] + t, i, cur, out) == split_from(
            t,
            0,
            Seq::empty(),
            split_from(s, i, cur, out),
        ),
    decreases s.len() - i,
{
    let u = s + seq![sep_char()] + t;
    if i == s.len() {
        assert(u[i] == sep_char());
        if cur.len() > 0 {
            lemma_split_shift(s, t, 0, Seq::empty(), out.push(cur));
        } else {
            assert(cur =~= Seq::<char>::empty());
            lemma_split_shift(s, t, 0, cur, out);
        }
    } else {
        assert(u[i] == s[i]);
        if s[i] == sep_char() {
            if cur.len() > 0 {
                lemma_split_concat_scan(s, t, i + 1, Seq::empty(), out.push(cur));
            } else {
                lemma_split_concat_scan(s, t, i + 1, cur, out);
            }
        } else {
            lemma_split_concat_scan(s, t, i + 1, cur.push(s[i]), out);
        }
    }
}

/// The completed components threaded through a scan only stand in front of
/// what the rest of the scan yields.
proof fn lemma_split_out_prefix(t: Seq<char>, i: int, cur: Seq<char>, out: Seq<Seq<char>>)
    requires
        0 <= i,
    ensures
        split_from(t, i, cur, out) == out + split_from(t, i, cur, Seq::empty()),
    decreases t.len() - i,
{
    if i >= t.len() {
        if cur.len() > 0 {
            assert(out.push(cur) =~~= out + Seq::<Seq<char>>::empty().push(cur));
        } else {
            assert(out =~~= out + Seq::<Seq<char>>::empty());
        }
    } else {
        if t[i] == sep_char() {
            if cur.len() > 0 {
                lemma_split_out_prefix(t, i + 1, Seq::empty(), out.push(cur));
                lemma_split_out_prefix(
                    t,
                    i + 1,
                    Seq::empty(),
                    Seq::<Seq<char>>::empty().push(cur),
                );
                assert(out.push(cur) + split_from(t, i + 1, Seq::empty(), Seq::empty()) =~~= out
                    + (Seq::<Seq<char>>::empty().push(cur) + split_from(
                    t,
                    i + 1,
                    Seq::empty(),
                    Seq::empty(),
                )));
            } else {
                lemma_split_out_prefix(t, i + 1, cur, out);
            }
        } else {
            lemma_split_out_prefix(t, i + 1, cur.push(t[i]), out);
        }
    }
}

/// Splitting distributes over joining: the components of a joined candidate
/// are the root's components followed by the requested name's.
pub proof fn lemma_components_of_join(root: Seq<char>, requested: Seq<char>)
    ensures
        components_of(joined(root, requested)) == components_of(root) + components_of(requested),
{
    lemma_split_concat_scan(root, requested, 0, Seq::empty(), Seq::empty());
    lemma_split_out_prefix(requested, 0, Seq::empty(), components_of(root));
}

/// Normalization leaves a scan over traversal-free components alone: each
/// one is simply appended.
proof fn lemma_normalize_dot_free_scan(
    comps: Seq<Seq<char>>,
    i: int,
    acc: Seq<Seq<char>>,
    absolute: bool,
)
    requires
        0 <= i <= comps.len(),
        dot_free(comps),
    ensures
        normalize_from(comps, i, acc, absolute) == acc + comps.subrange(i, comps.len() as int),
    decreases comps.len() - i,
{
    if i == comps.len() {
        assert(acc =~~= acc + comps.subrange(i, comps.len() as int));
    } else {
        lemma_normalize_dot_free_scan(comps, i + 1, acc.push(comps[i]), absolute);
        assert(acc.push(comps[i]) + comps.subrange(i + 1, comps.len() as int) =~~= acc
            + comps.subrange(i, comps.len() as int));
    }
}

/// A traversal-free component sequence is its own normalized form.
pub proof fn lemma_normalized_dot_free(comps: Seq<Seq<char>>, absolute: bool)
    requires
        dot_free(comps),
    ensures
        normalized(comps, absolute) == comps,
{
    lemma_normalize_dot_free_scan(comps, 0, Seq::empty(), absolute);
    assert(Seq::<Seq<char>>::empty() + comps.subrange(0, comps.len() as int) =~~= comps);
}

/// A traversal-free filename joined under an absolute root with
/// traversal-free components always lies within that root: nothing beyond
/// these conditions can make the candidate for a new file escape.
pub proof fn lemma_clean_join_contained(root: Seq<char>, requested: Seq<char>)
    requires
        is_absolute(root),
        dot_free(components_of(root)),
        dot_free(components_of(requested)),
    ensures
        path_contains(root, joined(root, requested)),
{
    let u = joined(root, requested);
    let rc = components_of(root);
    let fc = components_of(requested);
    assert(u[0] == root[0]);
    assert(is_absolute(u));
    lemma_components_of_join(root, requested);
    assert forall|k: int| 0 <= k < (rc + fc).len() implies (rc + fc)[k] != cur_dir() && (rc
        + fc)[k] != parent_dir() by {
        if k < rc.len() {
            assert((rc + fc)[k] == rc[k]);
        } else {
            assert((rc + fc)[k] == fc[k - rc.len()]);
        }
    }
    lemma_normalized_dot_free(rc, true);
    lemma_normalized_dot_free(rc + fc, true);
    assert(norm_of(root).is_prefix_of(norm_of(u))) by {
        assert(norm_of(root) =~~= norm_of(u).subrange(0, norm_of(root).len() as int));
    }
}

/// Joins a requested filename under the root, literally.
pub fn join_under_root(root: &str, requested: &str) -> (c: String)
    ensures
        c@ == joined(root@, requested@),
{
    let mut c = String::from_str(root);
    c.append("/");
    c.append(requested);
    proof {
        reveal_strlit("/");
        assert(c@ =~= joined(root@, requested@));
    }
    c
}

} // verus!
