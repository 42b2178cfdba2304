//! Component references among the glyphs of a document, and the check that
//! every glyph can be built from them.
//!
//! A glyph may be made of other glyphs, which it names. The engine follows
//! those names until it reaches glyphs that are made of outlines alone, and
//! does not look for a name that leads back to where it started. So before a
//! document is compiled, the bridge makes sure that following the names
//! always ends: that no name is that of a missing glyph, and that no glyph is
//! part of itself.
//!
//! The references of a document are held as plain values: for each glyph, in
//! the order of the document, its name and the names of its components.

use vstd::prelude::*;
use vstd::string::StringExecFns;

use crate::diagnostic::{BuildError, FailureKind};

verus! {

/// Whether some glyph of the list bears `name`.
pub open spec fn names_a_glyph(refs: Seq<(Seq<char>, Seq<Seq<char>>)>, name: Seq<char>) -> bool {
    exists|j: int| 0 <= j < refs.len() && (#[trigger] refs[j]).0 == name
}

/// Whether glyph `i` can be built with at most `depth` levels of glyphs: each
/// of its components names a glyph, and every glyph of that name can be built
/// with one level less. A glyph without components has depth 1.
pub open spec fn has_depth(refs: Seq<(Seq<char>, Seq<Seq<char>>)>, i: int, depth: nat) -> bool
    decreases depth,
{
    &&& depth > 0
    &&& forall|c: int|
        0 <= c < refs[i].1.len() ==> {
            &&& names_a_glyph(refs, #[trigger] refs[i].1[c])
            &&& forall|j: int|
                0 <= j < refs.len() && (#[trigger] refs[j]).0 == refs[i].1[c] ==> has_depth(
                    refs,
                    j,
                    (depth - 1) as nat,
                )
        }
}

/// Whether glyph `i` can be built at all.
pub open spec fn is_grounded(refs: Seq<(Seq<char>, Seq<Seq<char>>)>, i: int) -> bool {
    exists|depth: nat| has_depth(refs, i, depth)
}

/// Whether every glyph of the list can be built.
pub open spec fn references_are_sound(refs: Seq<(Seq<char>, Seq<Seq<char>>)>) -> bool {
    forall|i: int| 0 <= i < refs.len() ==> is_grounded(refs, i)
}

/// Whether glyph `i` is the first of the list that cannot be built.
pub open spec fn is_first_unsound(refs: Seq<(Seq<char>, Seq<Seq<char>>)>, i: int) -> bool {
    &&& 0 <= i < refs.len()
    &&& !is_grounded(refs, i)
    &&& forall|k: int| 0 <= k < i ==> is_grounded(refs, k)
}

/// The first glyph of the list that cannot be built, where there is one.
pub open spec fn first_unsound(refs: Seq<(Seq<char>, Seq<Seq<char>>)>) -> int {
    choose|i: int| is_first_unsound(refs, i)
}

/// What is said of a glyph that cannot be built.
pub open spec fn unsound_detail(name: Seq<char>) -> Seq<char> {
    "glyph '"@ + name
        + "' cannot be built: its components lead to a glyph that is missing or is part of itself"@
}

/// Whether every glyph of the given name is marked in `done`, and there is
/// one.
spec fn resolves(refs: Seq<(Seq<char>, Seq<Seq<char>>)>, done: Seq<bool>, name: Seq<char>) -> bool {
    &&& names_a_glyph(refs, name)
    &&& forall|j: int| 0 <= j < refs.len() && (#[trigger] refs[j]).0 == name ==> done[j]
}

/// Whether each component of glyph `i` resolves against `done`.
spec fn ready(refs: Seq<(Seq<char>, Seq<Seq<char>>)>, done: Seq<bool>, i: int) -> bool {
    forall|c: int| 0 <= c < refs[i].1.len() ==> resolves(refs, done, #[trigger] refs[i].1[c])
}

/// The number of glyphs that `done` does not mark.
spec fn pending(done: Seq<bool>) -> nat
    decreases done.len(),
{
    if done.len() == 0 {
        0
    } else {
        pending(done.drop_last()) + if done.last() {
            0nat
        } else {
            1nat
        }
    }
}

proof fn lemma_pending_after_mark(done: Seq<bool>, i: int)
    requires
        0 <= i < done.len(),
        !done[i],
    ensures
        pending(done.update(i, true)) + 1 == pending(done),
    decreases done.len(),
{
    let marked = done.update(i, true);
    if i == done.len() - 1 {
        assert(marked.drop_last() =~= done.drop_last());
    } else {
        assert(marked.drop_last() =~= done.drop_last().update(i, true));
        lemma_pending_after_mark(done.drop_last(), i);
    }
}

/// A glyph that can be built with some depth can be built with any greater
/// one.
pub proof fn lemma_depth_grows(refs: Seq<(Seq<char>, Seq<Seq<char>>)>, i: int, depth: nat)
    requires
        has_depth(refs, i, depth),
    ensures
        has_depth(refs, i, depth + 1),
    decreases depth,
{
    assert forall|c: int| 0 <= c < refs[i].1.len() implies {
        &&& names_a_glyph(refs, #[trigger] refs[i].1[c])
        &&& forall|j: int|
            0 <= j < refs.len() && (#[trigger] refs[j]).0 == refs[i].1[c] ==> has_depth(
                refs,
                j,
                depth,
            )
    } by {
        assert forall|j: int|
            0 <= j < refs.len() && (#[trigger] refs[j]).0 == refs[i].1[c] implies has_depth(
            refs,
            j,
            depth,
        ) by {
            lemma_depth_grows(refs, j, (depth - 1) as nat);
        }
    }
}

/// Where no unmarked glyph is ready, every glyph that can be built is marked.
proof fn lemma_built_is_marked(
    refs: Seq<(Seq<char>, Seq<Seq<char>>)>,
    done: Seq<bool>,
    i: int,
    depth: nat,
)
    requires
        done.len() == refs.len(),
        0 <= i < refs.len(),
        forall|k: int| 0 <= k < refs.len() && !done[k] ==> !ready(refs, done, k),
        has_depth(refs, i, depth),
    ensures
        done[i],
    decreases depth,
{
    if !done[i] {
        assert(!ready(refs, done, i));
        let c = choose|c: int|
            0 <= c < refs[i].1.len() && !resolves(refs, done, #[trigger] refs[i].1[c]);
        let name = refs[i].1[c];
        assert(names_a_glyph(refs, name));
        let j = choose|j: int| 0 <= j < refs.len() && (#[trigger] refs[j]).0 == name && !done[j];
        lemma_built_is_marked(refs, done, j, (depth - 1) as nat);
    }
}

/// No list has two first glyphs that cannot be built.
pub proof fn lemma_first_unsound_is_one(refs: Seq<(Seq<char>, Seq<Seq<char>>)>, i: int)
    requires
        is_first_unsound(refs, i),
    ensures
        first_unsound(refs) == i,
        !references_are_sound(refs),
{
    let j = first_unsound(refs);
    assert(is_first_unsound(refs, j));
    if j < i {
        assert(is_grounded(refs, j));
    }
    if i < j {
        assert(is_grounded(refs, i));
    }
}

/// Whether glyph `a` has a component that bears the name of glyph `b`.
pub open spec fn refers_to(refs: Seq<(Seq<char>, Seq<Seq<char>>)>, a: int, b: int) -> bool {
    &&& 0 <= a < refs.len()
    &&& 0 <= b < refs.len()
    &&& exists|c: int| 0 <= c < refs[a].1.len() && #[trigger] refs[a].1[c] == refs[b].0
}

/// Whether each glyph of `path` refers to the next.
pub open spec fn is_reference_path(refs: Seq<(Seq<char>, Seq<Seq<char>>)>, path: Seq<int>) -> bool {
    &&& path.len() >= 1
    &&& forall|k: int| 0 <= k < path.len() - 1 ==> refers_to(refs, #[trigger] path[k], path[k + 1])
}

/// A list in which no glyph has a component is sound.
pub proof fn lemma_without_components_is_sound(refs: Seq<(Seq<char>, Seq<Seq<char>>)>)
    requires
        forall|i: int| 0 <= i < refs.len() ==> (#[trigger] refs[i]).1.len() == 0,
    ensures
        references_are_sound(refs),
{
    assert forall|i: int| 0 <= i < refs.len() implies is_grounded(refs, i) by {
        assert(refs[i].1.len() == 0);
        assert(has_depth(refs, i, 1));
    }
}

/// A list in which a component names no glyph is not sound.
pub proof fn lemma_missing_glyph_is_unsound(
    refs: Seq<(Seq<char>, Seq<Seq<char>>)>,
    i: int,
    c: int,
)
    requires
        0 <= i < refs.len(),
        0 <= c < refs[i].1.len(),
        !names_a_glyph(refs, refs[i].1[c]),
    ensures
        !is_grounded(refs, i),
        !references_are_sound(refs),
{
    assert forall|depth: nat| !has_depth(refs, i, depth) by {
        if has_depth(refs, i, depth) {
            assert(names_a_glyph(refs, refs[i].1[c]));
        }
    }
    assert(!is_grounded(refs, i));
}

/// Each step along a path of references uses up one level of depth.
proof fn lemma_depth_along_path(
    refs: Seq<(Seq<char>, Seq<Seq<char>>)>,
    path: Seq<int>,
    k: int,
    depth: nat,
)
    requires
        is_reference_path(refs, path),
        0 <= k < path.len(),
        has_depth(refs, path[0], depth),
    ensures
        depth > k,
        has_depth(refs, path[k], (depth - k) as nat),
    decreases k,
{
    if k > 0 {
        lemma_depth_along_path(refs, path, k - 1, depth);
        let a = path[k - 1];
        let b = path[k];
        assert(refers_to(refs, a, path[(k - 1) + 1]));
        let c = choose|c: int| 0 <= c < refs[a].1.len() && #[trigger] refs[a].1[c] == refs[b].0;
        assert(has_depth(refs, a, (depth - (k - 1)) as nat));
        assert(names_a_glyph(refs, refs[a].1[c]));
        assert(refs[b].0 == refs[a].1[c]);
        assert(has_depth(refs, b, (depth - k) as nat));
    }
}

proof fn lemma_no_depth_on_a_cycle(
    refs: Seq<(Seq<char>, Seq<Seq<char>>)>,
    path: Seq<int>,
    depth: nat,
)
    requires
        is_reference_path(refs, path),
        path.len() >= 2,
        path.first() == path.last(),
    ensures
        !has_depth(refs, path[0], depth),
    decreases depth,
{
    if has_depth(refs, path[0], depth) {
        let last = path.len() - 1;
        lemma_depth_along_path(refs, path, last, depth);
        lemma_no_depth_on_a_cycle(refs, path, (depth - last) as nat);
    }
}

/// A list in which a glyph reaches itself along references is not sound. A
/// glyph that names itself is the shortest such path.
pub proof fn lemma_cycle_is_unsound(refs: Seq<(Seq<char>, Seq<Seq<char>>)>, path: Seq<int>)
    requires
        is_reference_path(refs, path),
        path.len() >= 2,
        path.first() == path.last(),
    ensures
        !is_grounded(refs, path[0]),
        !references_are_sound(refs),
{
    assert(refers_to(refs, path[0], path[0int + 1]));
    assert forall|depth: nat| !has_depth(refs, path[0], depth) by {
        lemma_no_depth_on_a_cycle(refs, path, depth);
    }
    assert(0 <= path[0] < refs.len());
    assert(!is_grounded(refs, path[0]));
}

/// Whether every component of every glyph names a glyph of the list.
pub open spec fn all_named(refs: Seq<(Seq<char>, Seq<Seq<char>>)>) -> bool {
    forall|i: int, c: int|
        0 <= i < refs.len() && 0 <= c < refs[i].1.len() ==> names_a_glyph(
            refs,
            #[trigger] refs[i].1[c],
        )
}

/// Whether no glyph reaches itself along references.
pub open spec fn is_acyclic(refs: Seq<(Seq<char>, Seq<Seq<char>>)>) -> bool {
    forall|path: Seq<int>|
        path.len() >= 2 && path.first() == path.last() ==> !#[trigger] is_reference_path(
            refs,
            path,
        )
}

/// In a sound list every component names a glyph of the list, and no glyph
/// reaches itself along references.
pub proof fn lemma_sound_means_named_and_acyclic(refs: Seq<(Seq<char>, Seq<Seq<char>>)>)
    requires
        references_are_sound(refs),
    ensures
        all_named(refs),
        is_acyclic(refs),
{
    assert forall|i: int, c: int| 0 <= i < refs.len() && 0 <= c < refs[i].1.len() implies names_a_glyph(
        refs,
        #[trigger] refs[i].1[c],
    ) by {
        if !names_a_glyph(refs, refs[i].1[c]) {
            lemma_missing_glyph_is_unsound(refs, i, c);
        }
    }
    assert forall|path: Seq<int>|
        path.len() >= 2 && path.first() == path.last() implies !#[trigger] is_reference_path(
        refs,
        path,
    ) by {
        if is_reference_path(refs, path) {
            lemma_cycle_is_unsound(refs, path);
        }
    }
}

proof fn lemma_depth_grows_to(
    refs: Seq<(Seq<char>, Seq<Seq<char>>)>,
    i: int,
    depth: nat,
    greater: nat,
)
    requires
        has_depth(refs, i, depth),
        depth <= greater,
    ensures
        has_depth(refs, i, greater),
    decreases greater - depth,
{
    if depth < greater {
        lemma_depth_grows(refs, i, depth);
        lemma_depth_grows_to(refs, i, depth + 1, greater);
    }
}

/// A depth within which all of the first `m` glyphs can be built that glyph
/// `i` refers to.
proof fn lemma_common_depth(refs: Seq<(Seq<char>, Seq<Seq<char>>)>, i: int, m: int) -> (depth:
    nat)
    requires
        0 <= m <= refs.len(),
        forall|j: int| 0 <= j < refs.len() && #[trigger] refers_to(refs, i, j) ==> is_grounded(refs, j),
    ensures
        forall|j: int| 0 <= j < m && #[trigger] refers_to(refs, i, j) ==> has_depth(refs, j, depth),
    decreases m,
{
    if m == 0 {
        0
    } else {
        let last = m - 1;
        let before = lemma_common_depth(refs, i, last);
        if refers_to(refs, i, last) {
            assert(is_grounded(refs, last));
            let own = choose|d: nat| has_depth(refs, last, d);
            let depth = if before >= own {
                before
            } else {
                own
            };
            assert forall|j: int| 0 <= j < m && #[trigger] refers_to(refs, i, j) implies has_depth(
                refs,
                j,
                depth,
            ) by {
                if j == last {
                    lemma_depth_grows_to(refs, j, own, depth);
                } else {
                    lemma_depth_grows_to(refs, j, before, depth);
                }
            }
            depth
        } else {
            before
        }
    }
}

/// Where every component names a glyph, a glyph that cannot be built refers
/// to one that cannot be built either.
proof fn lemma_unsound_refers_to_unsound(refs: Seq<(Seq<char>, Seq<Seq<char>>)>, i: int) -> (j:
    int)
    requires
        all_named(refs),
        0 <= i < refs.len(),
        !is_grounded(refs, i),
    ensures
        refers_to(refs, i, j),
        !is_grounded(refs, j),
{
    if forall|j: int| 0 <= j < refs.len() && #[trigger] refers_to(refs, i, j) ==> is_grounded(refs, j) {
        let depth = lemma_common_depth(refs, i, refs.len() as int);
        assert forall|c: int| 0 <= c < refs[i].1.len() implies {
            &&& names_a_glyph(refs, #[trigger] refs[i].1[c])
            &&& forall|j: int|
                0 <= j < refs.len() && (#[trigger] refs[j]).0 == refs[i].1[c] ==> has_depth(
                    refs,
                    j,
                    depth,
                )
        } by {
            assert forall|j: int|
                0 <= j < refs.len() && (#[trigger] refs[j]).0 == refs[i].1[c] implies has_depth(
                refs,
                j,
                depth,
            ) by {
                assert(refers_to(refs, i, j));
            }
        }
        assert(has_depth(refs, i, depth + 1));
        assert(false);
        0
    } else {
        choose|j: int| 0 <= j < refs.len() && #[trigger] refers_to(refs, i, j) && !is_grounded(refs, j)
    }
}

/// Where every component names a glyph, a path of any length starts at a
/// glyph that cannot be built.
proof fn lemma_path_from_unsound(refs: Seq<(Seq<char>, Seq<Seq<char>>)>, i: int, len: nat) -> (path:
    Seq<int>)
    requires
        all_named(refs),
        0 <= i < refs.len(),
        !is_grounded(refs, i),
        len >= 1,
    ensures
        path.len() == len,
        path[0] == i,
        is_reference_path(refs, path),
        forall|k: int| 0 <= k < path.len() ==> 0 <= #[trigger] path[k] < refs.len(),
        !is_grounded(refs, path.last()),
    decreases len,
{
    if len == 1 {
        seq![i]
    } else {
        let shorter = lemma_path_from_unsound(refs, i, (len - 1) as nat);
        let next = lemma_unsound_refers_to_unsound(refs, shorter.last());
        let path = shorter.push(next);
        assert forall|k: int| 0 <= k < path.len() - 1 implies refers_to(
            refs,
            #[trigger] path[k],
            path[k + 1],
        ) by {
            if k < shorter.len() - 1 {
                assert(refers_to(refs, shorter[k], shorter[k + 1]));
            }
        }
        path
    }
}

/// Among more glyphs than the list has, one comes twice.
proof fn lemma_path_repeats(path: Seq<int>, n: nat) -> (at: (int, int))
    requires
        path.len() > n,
        forall|k: int| 0 <= k < path.len() ==> 0 <= #[trigger] path[k] < n,
    ensures
        0 <= at.0 < at.1 < path.len(),
        path[at.0] == path[at.1],
{
    if path.no_duplicates() {
        path.unique_seq_to_set();
        vstd::set_lib::lemma_int_range(0, n as int);
        assert(path.to_set().subset_of(vstd::set_lib::set_int_range(0, n as int))) by {
            assert forall|x: int| path.to_set().contains(x) implies vstd::set_lib::set_int_range(
                0,
                n as int,
            ).contains(x) by {
                let k = choose|k: int| 0 <= k < path.len() && path[k] == x;
                assert(0 <= path[k] < n);
            }
        }
        vstd::set_lib::lemma_len_subset(path.to_set(), vstd::set_lib::set_int_range(0, n as int));
        assert(false);
        (0, 0)
    } else {
        let (a, b) = choose|a: int, b: int|
            0 <= a < path.len() && 0 <= b < path.len() && a != b && path[a] == path[b];
        if a < b {
            (a, b)
        } else {
            (b, a)
        }
    }
}

/// A list in which every component names a glyph and no glyph reaches itself
/// is sound.
pub proof fn lemma_named_and_acyclic_is_sound(refs: Seq<(Seq<char>, Seq<Seq<char>>)>)
    requires
        all_named(refs),
        is_acyclic(refs),
    ensures
        references_are_sound(refs),
{
    if !references_are_sound(refs) {
        let i = choose|i: int| 0 <= i < refs.len() && !is_grounded(refs, i);
        let path = lemma_path_from_unsound(refs, i, refs.len() + 1);
        let (a, b) = lemma_path_repeats(path, refs.len());
        let cycle = path.subrange(a, b + 1);
        assert forall|k: int| 0 <= k < cycle.len() - 1 implies refers_to(
            refs,
            #[trigger] cycle[k],
            cycle[k + 1],
        ) by {
            assert(refers_to(refs, path[a + k], path[a + k + 1]));
        }
        assert(cycle.first() == cycle.last());
        assert(is_reference_path(refs, cycle));
    }
}

/// The references of a list are sound exactly if every component names a
/// glyph of the list and no glyph reaches itself along references.
pub proof fn lemma_sound_is_named_and_acyclic(refs: Seq<(Seq<char>, Seq<Seq<char>>)>)
    ensures
        references_are_sound(refs) <==> all_named(refs) && is_acyclic(refs),
{
    if references_are_sound(refs) {
        lemma_sound_means_named_and_acyclic(refs);
    }
    if all_named(refs) && is_acyclic(refs) {
        lemma_named_and_acyclic_is_sound(refs);
    }
}

fn resolves_against(refs: &Vec<(String, Vec<String>)>, done: &Vec<bool>, name: &String) -> (r:
    bool)
    requires
        done.len() == refs.len(),
    ensures
        r == resolves(refs.deep_view(), done@, name@),
{
    let ghost v = refs.deep_view();
    let mut found = false;
    let mut j: usize = 0;
    while j < refs.len()
        invariant
            v == refs.deep_view(),
            j <= refs.len(),
            done.len() == refs.len(),
            found == (exists|k: int| 0 <= k < j && (#[trigger] v[k]).0 == name@),
            forall|k: int| 0 <= k < j && (#[trigger] v[k]).0 == name@ ==> done@[k],
        decreases refs.len() - j,
    {
        assert(v[j as int].0 == refs[j as int].0@);
        if refs[j].0 == *name {
            if !done[j] {
                return false;
            }
            found = true;
        }
        j += 1;
    }
    found
}

fn is_ready(refs: &Vec<(String, Vec<String>)>, done: &Vec<bool>, i: usize) -> (r: bool)
    requires
        done.len() == refs.len(),
        i < refs.len(),
    ensures
        r == ready(refs.deep_view(), done@, i as int),
{
    let ghost v = refs.deep_view();
    let components = &refs[i].1;
    assert(v[i as int].1 == components.deep_view());
    let mut c: usize = 0;
    while c < components.len()
        invariant
            v == refs.deep_view(),
            i < refs.len(),
            done.len() == refs.len(),
            v[i as int].1 == components.deep_view(),
            c <= components.len(),
            forall|k: int| 0 <= k < c ==> resolves(v, done@, #[trigger] v[i as int].1[k]),
        decreases components.len() - c,
    {
        assert(v[i as int].1[c as int] == components[c as int]@);
        if !resolves_against(refs, done, &components[c]) {
            return false;
        }
        c += 1;
    }
    true
}

/// Looks for the first glyph of the list that cannot be built.
pub fn first_unsound_glyph(refs: &Vec<(String, Vec<String>)>) -> (r: Option<usize>)
    ensures
        match r {
            None => references_are_sound(refs.deep_view()),
            Some(i) => is_first_unsound(refs.deep_view(), i as int),
        },
{
    let ghost v = refs.deep_view();
    let n = refs.len();
    let mut done: Vec<bool> = Vec::new();
    while done.len() < n
        invariant
            done.len() <= n,
            forall|k: int| 0 <= k < done.len() ==> !done@[k],
        decreases n - done.len(),
    {
        done.push(false);
    }
    let ghost mut depth: nat = 0;
    let mut progress = true;
    while progress
        invariant
            v == refs.deep_view(),
            n == refs.len(),
            done.len() == n,
            forall|k: int| 0 <= k < n && done@[k] ==> has_depth(v, k, depth),
            !progress ==> forall|k: int| 0 <= k < n && !done@[k] ==> !ready(v, done@, k),
        decreases
                pending(done@) + if progress {
                    1nat
                } else {
                    0nat
                },
    {
        let ghost at_start = done@;
        progress = false;
        let mut i: usize = 0;
        while i < n
            invariant
                v == refs.deep_view(),
                n == refs.len(),
                done.len() == n,
                i <= n,
                forall|k: int| 0 <= k < n && done@[k] ==> has_depth(v, k, depth),
                !progress ==> done@ == at_start,
                !progress ==> forall|k: int| 0 <= k < i && !done@[k] ==> !ready(v, done@, k),
                progress ==> pending(done@) < pending(at_start),
                pending(done@) <= pending(at_start),
            decreases n - i,
        {
            if !done[i] {
                if is_ready(refs, &done, i) {
                    proof {
                        let marked = done@.update(i as int, true);
                        lemma_pending_after_mark(done@, i as int);
                        assert(has_depth(v, i as int, depth + 1));
                        assert forall|k: int| 0 <= k < n && marked[k] implies has_depth(
                            v,
                            k,
                            depth + 1,
                        ) by {
                            if k != i {
                                lemma_depth_grows(v, k, depth);
                            }
                        }
                        depth = depth + 1;
                    }
                    done.set(i, true);
                    progress = true;
                }
            }
            i += 1;
        }
    }
    let mut i: usize = 0;
    while i < n
        invariant
            v == refs.deep_view(),
            n == refs.len(),
            done.len() == n,
            i <= n,
            forall|k: int| 0 <= k < n && done@[k] ==> has_depth(v, k, depth),
            forall|k: int| 0 <= k < n && !done@[k] ==> !ready(v, done@, k),
            forall|k: int| 0 <= k < i ==> done@[k],
        decreases n - i,
    {
        if !done[i] {
            proof {
                assert forall|d: nat| !has_depth(v, i as int, d) by {
                    if has_depth(v, i as int, d) {
                        lemma_built_is_marked(v, done@, i as int, d);
                    }
                }
                assert forall|k: int| 0 <= k < i implies is_grounded(v, k) by {
                    assert(has_depth(v, k, depth));
                }
            }
            return Some(i);
        }
        i += 1;
    }
    proof {
        assert forall|k: int| 0 <= k < v.len() implies is_grounded(v, k) by {
            assert(has_depth(v, k, depth));
        }
    }
    None
}

/// The adapter's check of a document's references: they pass if every glyph
/// can be built; otherwise the check fails as an adaptation failure that
/// names the first glyph that cannot.
pub fn check_references(refs: &Vec<(String, Vec<String>)>) -> (r: Result<(), BuildError>)
    ensures
        r is Ok <==> references_are_sound(refs.deep_view()),
        r matches Err(failure) ==> failure@ == (
            FailureKind::Adaptation,
            unsound_detail(refs.deep_view()[first_unsound(refs.deep_view())].0),
        ),
{
    match first_unsound_glyph(refs) {
        None => Ok(()),
        Some(i) => {
            proof {
                lemma_first_unsound_is_one(refs.deep_view(), i as int);
                assert(refs.deep_view()[i as int].0 == refs[i as int].0@);
            }
            let detail = String::from_str("glyph '").concat(refs[i].0.as_str()).concat(
                "' cannot be built: its components lead to a glyph that is missing or is part of itself",
            );
            Err(BuildError::new(FailureKind::Adaptation, detail))
        },
    }
}

} // verus!
