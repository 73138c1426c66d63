//! Detecting entries that appeared after the snapshot was taken.
//!
//! For a snapshot directory node, the baseline is the set of path strings of
//! its children captured at snapshot time. The caller re-lists the directory
//! on the live filesystem and hands the current path strings in;
//! [`scan_for_changes`] returns exactly the paths present now but absent from
//! the baseline, each once.

use vstd::prelude::*;

use crate::snapshot::{baseline_paths, FsEntry};

verus! {

/// The set of path strings of a listing.
pub open spec fn listed_paths(listing: Seq<String>) -> Set<Seq<char>> {
    Set::new(|p: Seq<char>| exists|i: int| 0 <= i < listing.len() && listing[i]@ == p)
}

/// The unauthorized entries: paths present in the live listing but absent
/// from the baseline, by path-string identity.
pub open spec fn new_entries(baseline: Set<Seq<char>>, current: Set<Seq<char>>) -> Set<
    Seq<char>,
> {
    current.difference(baseline)
}

/// What detection reports for a snapshot node and a live listing: the new
/// entries of a directory node; nothing for a file node.
pub open spec fn detected(directory: FsEntry, current: Set<Seq<char>>) -> Set<Seq<char>> {
    match directory {
        FsEntry::Directory(_, children) => new_entries(baseline_paths(children@), current),
        FsEntry::File(_) => Set::empty(),
    }
}

/// Whether some captured child carries the path `path`.
fn baseline_contains(children: &Vec<FsEntry>, path: &String) -> (found: bool)
    ensures
        found == baseline_paths(children@).contains(path@),
{
    let mut i: usize = 0;
    while i < children.len()
        invariant
            i <= children@.len(),
            forall|j: int| 0 <= j < i ==> children@[j].path_spec() != path@,
        decreases children@.len() - i,
    {
        if children[i].path().eq(path) {
            assert(baseline_paths(children@).contains(path@)) by {
                assert(children@[i as int].path_spec() == path@);
            };
            return true;
        }
        i = i + 1;
    }
    false
}

/// Whether the listing already holds the path `path`.
fn listing_contains(listing: &Vec<String>, path: &String) -> (found: bool)
    ensures
        found == listed_paths(listing@).contains(path@),
{
    let mut i: usize = 0;
    while i < listing.len()
        invariant
            i <= listing@.len(),
            forall|j: int| 0 <= j < i ==> listing@[j]@ != path@,
        decreases listing@.len() - i,
    {
        if listing[i].eq(path) {
            assert(listed_paths(listing@).contains(path@)) by {
                assert(listing@[i as int]@ == path@);
            };
            return true;
        }
        i = i + 1;
    }
    false
}

/// Computes the unauthorized entries for one snapshot node.
///
/// For a directory node the result holds exactly the paths of the live
/// listing `current` that are absent from the node's captured children — the
/// set difference current − baseline, each path once, never a path that was
/// merely deleted. A file node yields nothing.
pub fn scan_for_changes(directory: &FsEntry, current: &Vec<String>) -> (new_paths: Vec<String>)
    ensures
        listed_paths(new_paths@) == detected(*directory, listed_paths(current@)),
        new_paths@.map_values(|s: String| s@).no_duplicates(),
        directory is File ==> new_paths@ == Seq::<String>::empty(),
{
    let mut new_paths: Vec<String> = Vec::new();
    match directory {
        FsEntry::File(_) => {
            proof {
                assert(listed_paths(new_paths@) =~= Set::<Seq<char>>::empty());
            }
        },
        FsEntry::Directory(_path, children) => {
            let ghost baseline = baseline_paths(children@);
            let mut k: usize = 0;
            while k < current.len()
                invariant
                    k <= current@.len(),
                    baseline == baseline_paths(children@),
                    listed_paths(new_paths@) == new_entries(
                        baseline,
                        listed_paths(current@.take(k as int)),
                    ),
                    new_paths@.map_values(|s: String| s@).no_duplicates(),
                decreases current@.len() - k,
            {
                let candidate = &current[k];
                let in_baseline = baseline_contains(children, candidate);
                let already_flagged = listing_contains(&new_paths, candidate);
                let ghost prev = new_paths@;
                if !in_baseline && !already_flagged {
                    new_paths.push(candidate.clone());
                }
                proof {
                    lemma_listed_paths_take_step(current@, k as int);
                    if !in_baseline && !already_flagged {
                        lemma_listed_paths_push(prev, new_paths@[prev.len() as int]);
                        assert(new_paths@.map_values(|s: String| s@) =~= prev.map_values(
                            |s: String| s@,
                        ).push(current@[k as int]@));
                        assert(listed_paths(new_paths@) =~= new_entries(
                            baseline,
                            listed_paths(current@.take(k as int + 1)),
                        ));
                    } else {
                        assert(listed_paths(new_paths@) =~= new_entries(
                            baseline,
                            listed_paths(current@.take(k as int + 1)),
                        ));
                    }
                }
                k = k + 1;
            }
            proof {
                assert(current@.take(current@.len() as int) =~= current@);
            }
        },
    }
    new_paths
}

/// Extending a listing by one path adds exactly that path's string to its
/// path set.
proof fn lemma_listed_paths_push(listing: Seq<String>, path: String)
    ensures
        listed_paths(listing.push(path)) =~= listed_paths(listing).insert(path@),
{
    assert forall|p: Seq<char>| listed_paths(listing.push(path)).contains(p) implies listed_paths(
        listing,
    ).insert(path@).contains(p) by {
        let i = choose|i: int| 0 <= i < listing.push(path).len() && listing.push(path)[i]@ == p;
        if i < listing.len() {
            assert(listing[i]@ == p);
        }
    };
    assert forall|p: Seq<char>| listed_paths(listing).insert(path@).contains(p) implies listed_paths(
        listing.push(path),
    ).contains(p) by {
        if p == path@ {
            assert(listing.push(path)[listing.len() as int]@ == p);
        } else {
            let i = choose|i: int| 0 <= i < listing.len() && listing[i]@ == p;
            assert(listing.push(path)[i]@ == p);
        }
    };
}

/// The path set of one more element of a listing prefix.
proof fn lemma_listed_paths_take_step(listing: Seq<String>, k: int)
    requires
        0 <= k < listing.len(),
    ensures
        listed_paths(listing.take(k + 1)) =~= listed_paths(listing.take(k)).insert(listing[k]@),
{
    assert(listing.take(k + 1) =~= listing.take(k).push(listing[k]));
    lemma_listed_paths_push(listing.take(k), listing[k]);
}

/// When nothing was added — every live path already stood in the baseline —
/// detection reports nothing, however many cycles elapse.
pub proof fn lemma_no_additions_nothing_detected(baseline: Set<Seq<char>>, current: Set<Seq<char>>)
    requires
        current.subset_of(baseline),
    ensures
        new_entries(baseline, current) == Set::<Seq<char>>::empty(),
{
    assert(new_entries(baseline, current) =~= Set::<Seq<char>>::empty());
}

/// A path is reported if and only if it is present in the live listing and
/// absent from the baseline: never a baseline entry, never a merely deleted
/// one.
pub proof fn lemma_detection_exact(
    baseline: Set<Seq<char>>,
    current: Set<Seq<char>>,
    path: Seq<char>,
)
    ensures
        new_entries(baseline, current).contains(path) <==> (current.contains(path)
            && !baseline.contains(path)),
{
}

/// Remediating every detected entry to completion leaves nothing to detect:
/// once the reported entries are gone from the live listing, the next
/// detection on the unchanged listing reports nothing.
pub proof fn lemma_remediation_idempotent(baseline: Set<Seq<char>>, current: Set<Seq<char>>)
    ensures
        new_entries(baseline, current.difference(new_entries(baseline, current))) == Set::<
            Seq<char>,
        >::empty(),
{
    assert(new_entries(baseline, current.difference(new_entries(baseline, current))) =~= Set::<
        Seq<char>,
    >::empty());
}

/// An unauthorized entry that is still present in a later listing — say a
/// non-empty directory whose removal failed — is flagged again on that
/// listing, on every cycle, until it disappears.
pub proof fn lemma_surviving_entry_reflagged(
    baseline: Set<Seq<char>>,
    later: Set<Seq<char>>,
    path: Seq<char>,
)
    requires
        later.contains(path),
        !baseline.contains(path),
    ensures
        new_entries(baseline, later).contains(path),
{
}

} // verus!
