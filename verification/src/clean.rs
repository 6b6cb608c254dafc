//! Finding dependency-cache directories to remove.
//!
//! A walk over a directory tree hands each entry to a [`Collector`], which
//! records every directory named `node_modules` and tells the walk not to
//! go into it, so that no cache nested in another cache is listed.

use crate::text::same_text;
use vstd::prelude::*;

verus! {

/// Why a clean-up run ended without removing anything.
#[derive(Clone, Copy, Debug, PartialEq, Eq, Structural)]
pub enum CleanError {
    /// The walk met no dependency-cache directory.
    NothingFound,
}

/// What a walk does with the entry it has just met.
#[derive(Clone, Copy, Debug, PartialEq, Eq, Structural)]
pub enum Visit {
    /// The entry is a cache directory: it is listed, and the walk does not
    /// go into it.
    Collect,
    /// The entry is something else: the walk goes on, into it if it is a
    /// directory.
    Descend,
}

/// Whether an entry is a dependency-cache directory: a directory whose own
/// name is exactly `node_modules`.
pub open spec fn is_cache_directory(name: Seq<char>, is_directory: bool) -> bool {
    is_directory && name == "node_modules"@
}

/// The paths among `paths` whose position is named in `chosen`, in the
/// order of `paths`, each once.
pub open spec fn picked(paths: Seq<Seq<char>>, chosen: Seq<usize>) -> Seq<Seq<char>>
    decreases paths.len(),
{
    if paths.len() == 0 {
        Seq::empty()
    } else {
        let earlier = picked(paths.drop_last(), chosen);
        if exists|k: int| 0 <= k < chosen.len() && chosen[k] == paths.len() - 1 {
            earlier.push(paths.last())
        } else {
            earlier
        }
    }
}

/// The cache directories met so far on a walk, in the order of the walk.
pub struct Collector {
    paths: Vec<String>,
}

impl View for Collector {
    type V = Seq<Seq<char>>;

    closed spec fn view(&self) -> Seq<Seq<char>> {
        self.paths.deep_view()
    }
}

impl Collector {
    /// A collector at the start of a walk.
    pub fn new() -> (collector: Collector)
        ensures
            collector@ == Seq::<Seq<char>>::empty(),
    {
        let collector = Collector { paths: Vec::new() };
        assert(collector.paths.deep_view() =~= Seq::<Seq<char>>::empty());
        collector
    }

    /// Takes the next entry of the walk: its full path, its own name, and
    /// whether it is a directory. A cache directory is listed under its
    /// path and must not be entered.
    pub fn visit(&mut self, path: &str, name: &str, is_directory: bool) -> (visit: Visit)
        ensures
            visit is Collect <==> is_cache_directory(name@, is_directory),
            final(self)@ == if is_cache_directory(name@, is_directory) {
                old(self)@.push(path@)
            } else {
                old(self)@
            },
    {
        if is_directory && same_text(name, "node_modules") {
            let ghost before = self.paths.deep_view();
            self.paths.push(path.to_owned());
            assert(self.paths.deep_view() =~= before.push(path@));
            Visit::Collect
        } else {
            Visit::Descend
        }
    }

    /// Ends the walk: the listed directories, or the failure of a walk that
    /// met none.
    pub fn finish(self) -> (r: Result<Vec<String>, CleanError>)
        ensures
            self@.len() > 0 ==> (r matches Ok(paths) && paths.deep_view() == self@),
            self@.len() == 0 ==> (r matches Err(e) && e == CleanError::NothingFound),
    {
        if self.paths.len() == 0 {
            Err(CleanError::NothingFound)
        } else {
            Ok(self.paths)
        }
    }
}

/// Whether `index` is among the chosen positions.
fn is_chosen(chosen: &Vec<usize>, index: usize) -> (r: bool)
    ensures
        r == exists|k: int| 0 <= k < chosen.len() && chosen[k] == index,
{
    let mut k: usize = 0;
    while k < chosen.len()
        invariant
            k <= chosen.len(),
            forall|j: int| 0 <= j < k ==> chosen[j] != index,
        decreases chosen.len() - k,
    {
        if chosen[k] == index {
            return true;
        }
        k += 1;
    }
    false
}

/// The directories to remove: those of `paths` whose position was chosen,
/// in the order in which they were listed.
pub fn chosen_paths(paths: &Vec<String>, chosen: &Vec<usize>) -> (r: Vec<String>)
    ensures
        r.deep_view() == picked(paths.deep_view(), chosen@),
{
    let mut out: Vec<String> = Vec::new();
    let ghost all = paths.deep_view();
    assert(out.deep_view() =~= Seq::<Seq<char>>::empty());
    let mut i: usize = 0;
    while i < paths.len()
        invariant
            i <= paths.len(),
            all == paths.deep_view(),
            out.deep_view() == picked(all.take(i as int), chosen@),
        decreases paths.len() - i,
    {
        proof {
            assert(all.take(i + 1).drop_last() =~= all.take(i as int));
            assert(all.take(i + 1).last() == paths[i as int]@);
        }
        if is_chosen(chosen, i) {
            let ghost earlier = out.deep_view();
            out.push(paths[i].clone());
            assert(out.deep_view() =~= earlier.push(paths[i as int]@));
        }
        i += 1;
    }
    assert(all.take(paths.len() as int) =~= all);
    out
}

} // verus!
