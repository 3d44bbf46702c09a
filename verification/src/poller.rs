//! Existence polling: given an ordered list of paths, return the subset that
//! does not currently exist on the filesystem, preserving input order.

use vstd::prelude::*;

verus! {

/// The elements of `paths` whose matching flag in `flags` is false, in input
/// order: the paths a poll found not to exist, when `flags[i]` records
/// whether `paths[i]` existed.
pub open spec fn missing_seq(paths: Seq<Seq<char>>, flags: Seq<bool>) -> Seq<Seq<char>>
    decreases paths.len(),
{
    if paths.len() == 0 {
        Seq::empty()
    } else {
        let init = missing_seq(paths.drop_last(), flags.drop_last());
        if flags.last() {
            init
        } else {
            init.push(paths.last())
        }
    }
}

/// `a` is `b` with zero or more elements removed and the order kept.
pub open spec fn is_subsequence<T>(a: Seq<T>, b: Seq<T>) -> bool
    decreases b.len(),
{
    if a.len() == 0 {
        true
    } else if b.len() == 0 {
        false
    } else {
        (a.last() == b.last() && is_subsequence(a.drop_last(), b.drop_last()))
            || is_subsequence(a, b.drop_last())
    }
}

/// A poll result is a subsequence of the polled list: a subset in input order.
pub proof fn lemma_missing_is_subsequence(paths: Seq<Seq<char>>, flags: Seq<bool>)
    ensures
        is_subsequence(missing_seq(paths, flags), paths),
    decreases paths.len(),
{
    if paths.len() == 0 {
    } else {
        lemma_missing_is_subsequence(paths.drop_last(), flags.drop_last());
        let init = missing_seq(paths.drop_last(), flags.drop_last());
        if flags.last() {
            lemma_subsequence_widen(init, paths.drop_last(), paths.last());
        } else {
            assert(init.push(paths.last()).drop_last() =~= init);
        }
    }
}

/// A subsequence of `b` is also a subsequence of `b` extended by one element.
pub proof fn lemma_subsequence_widen<T>(a: Seq<T>, b: Seq<T>, x: T)
    requires
        is_subsequence(a, b),
    ensures
        is_subsequence(a, b.push(x)),
{
    assert(b.push(x).drop_last() =~= b);
}

/// Every element of a subsequence is an element of the longer sequence.
pub proof fn lemma_subsequence_contains<T>(a: Seq<T>, b: Seq<T>)
    requires
        is_subsequence(a, b),
    ensures
        forall|x: T| a.contains(x) ==> b.contains(x),
    decreases b.len(),
{
    if a.len() == 0 {
    } else if b.len() == 0 {
    } else if a.last() == b.last() && is_subsequence(a.drop_last(), b.drop_last()) {
        lemma_subsequence_contains(a.drop_last(), b.drop_last());
        assert forall|x: T| a.contains(x) implies b.contains(x) by {
            let i = choose|i: int| 0 <= i < a.len() && a[i] == x;
            if i == a.len() - 1 {
                assert(b[b.len() - 1] == x);
            } else {
                assert(a.drop_last()[i] == x);
                assert(a.drop_last().contains(x));
                let j = choose|j: int| 0 <= j < b.drop_last().len() && b.drop_last()[j] == x;
                assert(b[j] == x);
            }
        }
    } else {
        lemma_subsequence_contains(a, b.drop_last());
        assert forall|x: T| a.contains(x) implies b.contains(x) by {
            assert(a.contains(x) ==> b.drop_last().contains(x));
            if a.contains(x) {
                let j = choose|j: int| 0 <= j < b.drop_last().len() && b.drop_last()[j] == x;
                assert(b[j] == x);
            }
        }
    }
}

/// The subset of `paths` missing from a filesystem modelled as the set `fs`
/// of paths that exist.
pub open spec fn missing_of(paths: Seq<Seq<char>>, fs: Set<Seq<char>>) -> Seq<Seq<char>> {
    paths.filter(|p: Seq<char>| !fs.contains(p))
}

/// Law: a poll whose flags agree with a filesystem — modelled as the set `fs`
/// of paths that exist — returns exactly the elements of the input that are
/// not in `fs`, as a subset of the input in input order.
pub proof fn lemma_check_matches_filesystem(
    paths: Seq<Seq<char>>,
    flags: Seq<bool>,
    fs: Set<Seq<char>>,
)
    requires
        flags.len() == paths.len(),
        forall|i: int| 0 <= i < paths.len() ==> flags[i] == fs.contains(paths[i]),
    ensures
        missing_seq(paths, flags) == missing_of(paths, fs),
    decreases paths.len(),
{
    reveal(Seq::filter);
    if paths.len() == 0 {
        assert(missing_seq(paths, flags) =~= paths.filter(|p: Seq<char>| !fs.contains(p)));
    } else {
        lemma_check_matches_filesystem(paths.drop_last(), flags.drop_last(), fs);
    }
}

/// Every element of a filtered sequence satisfies the predicate, so filtering
/// a second time with the same predicate changes nothing.
pub proof fn lemma_filter_all_kept<T>(s: Seq<T>, pred: spec_fn(T) -> bool)
    requires
        forall|i: int| 0 <= i < s.len() ==> pred(s[i]),
    ensures
        s.filter(pred) == s,
    decreases s.len(),
{
    reveal(Seq::filter);
    if s.len() == 0 {
        assert(s.filter(pred) =~= s);
    } else {
        lemma_filter_all_kept(s.drop_last(), pred);
        assert(s.drop_last().filter(pred).push(s.last()) =~= s);
    }
}

/// Law: polling is idempotent under an unchanged filesystem. A second poll of
/// the missing subset, against the same set `fs` of existing paths, returns
/// that subset unchanged.
pub proof fn lemma_check_idempotent(paths: Seq<Seq<char>>, fs: Set<Seq<char>>)
    ensures
        missing_of(missing_of(paths, fs), fs) == missing_of(paths, fs),
{
    let pred = |p: Seq<char>| !fs.contains(p);
    let once = paths.filter(pred);
    assert forall|i: int| 0 <= i < once.len() implies pred(once[i]) by {
        paths.lemma_filter_pred(pred, i);
    }
    lemma_filter_all_kept(once, pred);
}

/// A stateless existence poller over a list of filesystem paths.
pub struct ExistencePoller;

/// Relies on std::path::Path::exists: queries the filesystem for whether the
/// path points at an existing entity; the answer depends on the state of the
/// disk at the moment of the call, so nothing is promised of it.
#[verifier::external_body]
fn path_exists(path: &String) -> bool {
    std::path::Path::new(path.as_str()).exists()
}

impl ExistencePoller {
    /// The paths whose flag is false, in input order: the pure core of a
    /// poll, taking the per-path existence answers as an argument.
    pub fn filter_missing(paths: &Vec<String>, flags: &Vec<bool>) -> (missing: Vec<String>)
        requires
            paths@.len() == flags@.len(),
        ensures
            missing.deep_view() == missing_seq(paths.deep_view(), flags@),
    {
        let ghost pdv = paths.deep_view();
        let mut missing: Vec<String> = Vec::new();
        let mut i: usize = 0;
        while i < paths.len()
            invariant
                paths@.len() == flags@.len(),
                i <= paths@.len(),
                pdv == paths.deep_view(),
                missing.deep_view() == missing_seq(pdv.take(i as int), flags@.take(i as int)),
            decreases paths@.len() - i,
        {
            let ghost before = missing.deep_view();
            if !flags[i] {
                missing.push(paths[i].clone());
                proof {
                    assert(missing.deep_view() =~= before.push(pdv[i as int]));
                }
            }
            i += 1;
            proof {
                let t = i as int;
                assert(pdv.take(t).drop_last() =~= pdv.take(t - 1));
                assert(flags@.take(t).drop_last() =~= flags@.take(t - 1));
                assert(pdv.take(t).last() == pdv[t - 1]);
                assert(flags@.take(t).last() == flags@[t - 1]);
            }
        }
        proof {
            assert(pdv.take(paths@.len() as int) =~= pdv);
            assert(flags@.take(paths@.len() as int) =~= flags@);
        }
        missing
    }

    /// The subset of `paths` that did not exist on the filesystem when the
    /// call inspected them, in input order. The filesystem may change at any
    /// moment, so the result is pinned only relative to the existence answers
    /// observed: some sequence of flags, one per path, for which the result
    /// is exactly the non-existing subset.
    pub fn check(paths: &Vec<String>) -> (missing: Vec<String>)
        ensures
            exists|flags: Seq<bool>|
                flags.len() == paths@.len() && missing.deep_view() == missing_seq(
                    paths.deep_view(),
                    flags,
                ),
            is_subsequence(missing.deep_view(), paths.deep_view()),
    {
        let mut flags: Vec<bool> = Vec::new();
        let mut i: usize = 0;
        while i < paths.len()
            invariant
                flags@.len() == i,
                i <= paths@.len(),
            decreases paths@.len() - i,
        {
            let e = path_exists(&paths[i]);
            flags.push(e);
            i += 1;
        }
        let missing = Self::filter_missing(paths, &flags);
        proof {
            let ghost f = flags@;
            assert(f.len() == paths@.len() && missing.deep_view() == missing_seq(
                paths.deep_view(),
                f,
            ));
            lemma_missing_is_subsequence(paths.deep_view(), f);
        }
        missing
    }
}

} // verus!
