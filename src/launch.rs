use vstd::prelude::*;

use crate::window_data::WindowDataEntry;

verus! {

/// The texts of a sequence of strings.
pub open spec fn texts(v: Seq<String>) -> Seq<Seq<char>> {
    v.map_values(|s: String| s@)
}

/// The index of the one path launched when an entry does not launch every
/// expanded path: the entry's index, clamped to the last path.
pub open spec fn clamped_index(index: usize, count: int) -> int {
    if (index as int) < count - 1 {
        index as int
    } else {
        count - 1
    }
}

/// The launch candidates of an entry among the paths its pattern expanded
/// to: all of them, or the one at the clamped index; none if there are none.
pub open spec fn candidate_paths(e: WindowDataEntry, expanded: Seq<Seq<char>>) -> Seq<Seq<char>> {
    if expanded.len() == 0 {
        Seq::empty()
    } else if e.resolve_multiple_paths {
        expanded
    } else {
        seq![expanded[clamped_index(e.path_resolution_index, expanded.len() as int)]]
    }
}

/// The candidates that are not among the running executables, in order.
pub open spec fn not_running(candidates: Seq<Seq<char>>, running: Seq<Seq<char>>) -> Seq<Seq<char>>
    decreases candidates.len(),
{
    if candidates.len() == 0 {
        Seq::empty()
    } else {
        let init = not_running(candidates.drop_last(), running);
        if running.contains(candidates.last()) {
            init
        } else {
            init.push(candidates.last())
        }
    }
}

/// The paths to launch for an entry: none when the entry is not to be
/// launched, else its candidates that are not running already.
pub open spec fn launch_paths(
    e: WindowDataEntry,
    expanded: Seq<Seq<char>>,
    running: Seq<Seq<char>>,
) -> Seq<Seq<char>> {
    if e.launch {
        not_running(candidate_paths(e, expanded), running)
    } else {
        Seq::empty()
    }
}

fn contains_text(v: &Vec<String>, s: &String) -> (r: bool)
    ensures
        r == texts(v@).contains(s@),
{
    let mut i: usize = 0;
    while i < v.len()
        invariant
            i <= v@.len(),
            forall|k: int| 0 <= k < i ==> v@[k]@ != s@,
        decreases v@.len() - i,
    {
        if v[i].eq(s) {
            assert(texts(v@)[i as int] == s@);
            return true;
        }
        i += 1;
    }
    assert forall|k: int| 0 <= k < texts(v@).len() implies texts(v@)[k] != s@ by {
        assert(texts(v@)[k] == v@[k]@);
    }
    false
}

/// Decides which executables to start for one entry, given the paths its
/// pattern expanded to, in expansion order, and the paths of the
/// executables that were running when the restore call began.
pub fn select_launch_paths(
    entry: &WindowDataEntry,
    expanded: &Vec<String>,
    running: &Vec<String>,
) -> (r: Vec<String>)
    ensures
        texts(r@) == launch_paths(*entry, texts(expanded@), texts(running@)),
{
    let ghost ex = texts(expanded@);
    let ghost run = texts(running@);
    let mut r: Vec<String> = Vec::new();
    if !entry.launch || expanded.len() == 0 {
        assert(texts(r@) =~= Seq::<Seq<char>>::empty());
        return r;
    }
    let mut candidates: Vec<String> = Vec::new();
    if entry.resolve_multiple_paths {
        let mut i: usize = 0;
        while i < expanded.len()
            invariant
                i <= expanded@.len(),
                candidates@.len() == i,
                forall|k: int| 0 <= k < i ==> candidates@[k]@ == expanded@[k]@,
            decreases expanded@.len() - i,
        {
            candidates.push(expanded[i].clone());
            i += 1;
        }
        assert(texts(candidates@) =~= texts(expanded@));
    } else {
        let last = expanded.len() - 1;
        let idx = if entry.path_resolution_index < last {
            entry.path_resolution_index
        } else {
            last
        };
        candidates.push(expanded[idx].clone());
        assert(texts(candidates@) =~= candidate_paths(*entry, ex));
    }
    let ghost cands = texts(candidates@);
    assert(cands == candidate_paths(*entry, ex));
    let mut i: usize = 0;
    while i < candidates.len()
        invariant
            i <= candidates@.len(),
            cands == texts(candidates@),
            run == texts(running@),
            texts(r@) == not_running(cands.take(i as int), run),
        decreases candidates@.len() - i,
    {
        assert(cands.take(i + 1).drop_last() =~= cands.take(i as int));
        assert(cands.take(i + 1).last() == candidates@[i as int]@);
        if !contains_text(running, &candidates[i]) {
            r.push(candidates[i].clone());
            assert(texts(r@) =~= not_running(cands.take(i as int), run).push(candidates@[i as int]@));
        }
        i += 1;
    }
    assert(cands.take(candidates@.len() as int) =~= cands);
    r
}

} // verus!
