//! Which roots are searched for archives. Unpacking them into the cache
//! directory is the caller's part.

use vstd::prelude::*;

verus! {

/// The roots that are searched: all but the cache directory, into which the
/// archives are unpacked.
pub open spec fn searched(paths: Seq<String>, cache_dir: Seq<char>) -> Seq<String> {
    paths.filter_map(
        |path: String|
            if path@ != cache_dir {
                Some(path)
            } else {
                None
            },
    )
}

/// Picks the roots that are searched for archives.
pub fn archive_roots(paths: &Vec<String>, cache_dir: &str) -> (roots: Vec<String>)
    ensures
        roots@ == searched(paths@, cache_dir@),
{
    let ghost keep = |path: String|
        if path@ != cache_dir@ {
            Some(path)
        } else {
            None
        };
    let cache = String::from_str(cache_dir);
    let mut roots: Vec<String> = Vec::new();
    let mut i: usize = 0;
    proof {
        assert(paths@.take(0).filter_map(keep) =~= Seq::<String>::empty());
    }
    while i < paths.len()
        invariant
            i <= paths.len(),
            cache@ == cache_dir@,
            keep == |path: String|
                if path@ != cache_dir@ {
                    Some(path)
                } else {
                    None
                },
            roots@ == paths@.take(i as int).filter_map(keep),
        decreases paths.len() - i,
    {
        proof {
            paths@.lemma_filter_map_take_succ(keep, i as int);
        }
        if paths[i] != cache {
            roots.push(paths[i].clone());
        }
        i += 1;
    }
    proof {
        assert(paths@.take(paths.len() as int) =~= paths@);
    }
    roots
}

} // verus!
