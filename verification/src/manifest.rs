//! The monitored-path manifest: a newline-delimited list of filesystem paths.
//! The caller reads the manifest file and hands over the lines it could read;
//! every non-empty line becomes one watched path, in file order, and empty
//! lines are skipped.

use vstd::prelude::*;

verus! {

/// The non-empty lines, in order: the watched paths a manifest's lines yield.
pub open spec fn watched_paths(lines: Seq<Seq<char>>) -> Seq<Seq<char>> {
    lines.filter(|line: Seq<char>| line.len() != 0)
}

/// An ordered list of filesystem paths to watch, constructed once from a
/// manifest and immutable afterwards. Duplicates are not rejected; they are
/// simply watched redundantly.
pub struct MonitoredPathList {
    paths: Vec<String>,
}

impl View for MonitoredPathList {
    type V = Seq<Seq<char>>;

    closed spec fn view(&self) -> Seq<Seq<char>> {
        self.paths.deep_view()
    }
}

impl MonitoredPathList {
    /// Build the list from the manifest's lines: each non-empty line is one
    /// watched path, in file order; empty lines are skipped.
    pub fn from_lines(lines: Vec<String>) -> (list: MonitoredPathList)
        ensures
            list@ == watched_paths(lines.deep_view()),
    {
        let ghost ldv = lines.deep_view();
        let mut paths: Vec<String> = Vec::new();
        let mut i: usize = 0;
        while i < lines.len()
            invariant
                i <= lines@.len(),
                ldv == lines.deep_view(),
                paths.deep_view() == watched_paths(ldv.take(i as int)),
            decreases lines@.len() - i,
        {
            let ghost before = paths.deep_view();
            if !lines[i].as_str().is_empty() {
                paths.push(lines[i].clone());
                proof {
                    assert(paths.deep_view() =~= before.push(ldv[i as int]));
                }
            }
            i += 1;
            proof {
                reveal(Seq::filter);
                let t = i as int;
                assert(ldv.take(t).drop_last() =~= ldv.take(t - 1));
                assert(ldv.take(t).last() == ldv[t - 1]);
            }
        }
        proof {
            assert(ldv.take(lines@.len() as int) =~= ldv);
        }
        MonitoredPathList { paths }
    }

    /// How many paths are watched.
    pub fn len(&self) -> (n: usize)
        ensures
            n == self@.len(),
    {
        self.paths.len()
    }

    /// The watched paths, in manifest order.
    pub fn paths(&self) -> (paths: &Vec<String>)
        ensures
            paths.deep_view() == self@,
    {
        &self.paths
    }

    /// Give up the list for the waiter to consume.
    pub fn into_paths(self) -> (paths: Vec<String>)
        ensures
            paths.deep_view() == self@,
    {
        self.paths
    }
}

} // verus!
