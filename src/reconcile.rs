use vstd::prelude::*;
use vstd::set_lib::{lemma_int_range, lemma_len_subset, set_int_range};

use crate::config::ConfigData;
use crate::paths::{entry_matches_path, is_system_path, is_system_path_spec, pattern_matches};
use crate::window_data::{WindowData, WindowDataEntry};

verus! {

/// What the caller is to do with one live window.
#[derive(Clone, Copy, Debug, PartialEq, Eq, Structural)]
pub enum WindowAction {
    /// The window is already excluded, or belongs to the system: leave it.
    Skip,
    /// The window is foreign: post it a close request.
    Close,
    /// The window is foreign: minimize it.
    Minimize,
    /// The window is foreign and foreign windows are left as they are.
    Ignore,
    /// The window resolved the entry at this index, which asks for no
    /// repositioning: leave the window as it is.
    Matched(usize),
    /// The window resolved the entry at this index: place it as that entry's
    /// `reposition_plan` says.
    Reposition(usize),
}

/// For each entry, whether its pattern matches the path.
pub open spec fn match_flags(entries: Seq<WindowDataEntry>, path: Seq<char>) -> Seq<bool> {
    Seq::new(entries.len(), |i: int| pattern_matches(entries[i].application_path@, path))
}

/// Index of the first entry, from `j` on, that is still pending and matches.
pub open spec fn first_match_from(matches: Seq<bool>, pending: Seq<bool>, j: int) -> Option<int>
    decreases matches.len() - j,
{
    if j < 0 || j >= matches.len() {
        None
    } else if pending[j] && matches[j] {
        Some(j)
    } else {
        first_match_from(matches, pending, j + 1)
    }
}

/// Index of the first pending entry, in entry order, that matches.
pub open spec fn first_match(matches: Seq<bool>, pending: Seq<bool>) -> Option<int> {
    first_match_from(matches, pending, 0)
}

proof fn lemma_first_match_from(matches: Seq<bool>, pending: Seq<bool>, j: int)
    requires
        0 <= j,
        pending.len() == matches.len(),
    ensures
        first_match_from(matches, pending, j) matches Some(i) ==> j <= i < matches.len()
            && pending[i] && matches[i] && forall|k: int|
            j <= k < i ==> !(pending[k] && #[trigger] matches[k]),
        first_match_from(matches, pending, j) is None ==> forall|k: int|
            j <= k < matches.len() ==> !(pending[k] && #[trigger] matches[k]),
    decreases matches.len() - j,
{
    if j < matches.len() {
        lemma_first_match_from(matches, pending, j + 1);
    }
}

/// What is done with a window that no pending entry matches.
pub open spec fn foreign_action(close_others: bool, minimize_others: bool) -> WindowAction {
    if close_others {
        WindowAction::Close
    } else if minimize_others {
        WindowAction::Minimize
    } else {
        WindowAction::Ignore
    }
}

/// The window is passed over without any change of state: it was excluded
/// or matched before, or it belongs to the system.
pub open spec fn passed_over(excluded: Seq<u64>, matched: Seq<u64>, handle: u64, system: bool) -> bool {
    excluded.contains(handle) || matched.contains(handle) || system
}

/// The action taken for one live window, given the state before it, whether
/// the window belongs to the system, and which entries match its path.
pub open spec fn step_action(
    entries: Seq<WindowDataEntry>,
    pending: Seq<bool>,
    excluded: Seq<u64>,
    matched: Seq<u64>,
    close_others: bool,
    minimize_others: bool,
    handle: u64,
    system: bool,
    matches: Seq<bool>,
) -> WindowAction {
    if passed_over(excluded, matched, handle, system) {
        WindowAction::Skip
    } else {
        match first_match(matches, pending) {
            Some(i) => if entries[i].reposition {
                WindowAction::Reposition(i as usize)
            } else {
                WindowAction::Matched(i as usize)
            },
            None => foreign_action(close_others, minimize_others),
        }
    }
}

/// The pending flags after one live window was classified.
pub open spec fn step_pending(
    pending: Seq<bool>,
    excluded: Seq<u64>,
    matched: Seq<u64>,
    handle: u64,
    system: bool,
    matches: Seq<bool>,
) -> Seq<bool> {
    if passed_over(excluded, matched, handle, system) {
        pending
    } else {
        match first_match(matches, pending) {
            Some(i) => pending.update(i, false),
            None => pending,
        }
    }
}

/// The excluded handles after one live window was classified.
pub open spec fn step_excluded(
    pending: Seq<bool>,
    excluded: Seq<u64>,
    matched: Seq<u64>,
    handle: u64,
    system: bool,
    matches: Seq<bool>,
) -> Seq<u64> {
    if passed_over(excluded, matched, handle, system) {
        excluded
    } else {
        match first_match(matches, pending) {
            Some(i) => excluded,
            None => excluded.push(handle),
        }
    }
}

/// The matched handles after one live window was classified.
pub open spec fn step_matched(
    pending: Seq<bool>,
    excluded: Seq<u64>,
    matched: Seq<u64>,
    handle: u64,
    system: bool,
    matches: Seq<bool>,
) -> Seq<u64> {
    if passed_over(excluded, matched, handle, system) {
        matched
    } else {
        match first_match(matches, pending) {
            Some(i) => matched.push(handle),
            None => matched,
        }
    }
}

/// Tests the path against the pattern of every entry, in order.
pub fn entry_match_flags(entries: &Vec<WindowDataEntry>, path: &str) -> (r: Vec<bool>)
    ensures
        r@ == match_flags(entries@, path@),
{
    let mut r: Vec<bool> = Vec::new();
    let mut i: usize = 0;
    while i < entries.len()
        invariant
            i <= entries@.len(),
            r@.len() == i,
            forall|k: int|
                0 <= k < i ==> r@[k] == pattern_matches(entries@[k].application_path@, path@),
        decreases entries@.len() - i,
    {
        r.push(entry_matches_path(&entries[i].application_path, path));
        i += 1;
    }
    assert(r@ =~= match_flags(entries@, path@));
    r
}

/// The state of one restore call: which entries are still waiting for a
/// window, which windows were found foreign, and how many attempts were made.
pub struct Reconciler {
    pub record: WindowData,
    /// `pending[i]` holds while entry `i` has not been matched to a window.
    pub pending: Vec<bool>,
    /// Handles of the windows found foreign; they are never looked at again.
    pub excluded: Vec<u64>,
    /// Handles of the windows that resolved an entry; they are never looked
    /// at again either.
    pub matched: Vec<u64>,
    pub attempts: usize,
    pub max_attempts: usize,
    pub close_others: bool,
    pub minimize_others: bool,
}

impl Reconciler {
    pub open spec fn wf(&self) -> bool {
        self.pending@.len() == self.record.data@.len()
    }

    /// The indices of the entries still waiting for a window.
    pub open spec fn pending_set(&self) -> Set<int> {
        Set::new(|i: int| 0 <= i < self.pending@.len() && self.pending@[i])
    }

    /// Starts a restore call: every entry is pending, no window is excluded,
    /// no attempt has been made.
    pub fn new(record: WindowData, config: &ConfigData, close_others: bool, minimize_others: bool) -> (r:
        Reconciler)
        ensures
            r.wf(),
            r.record == record,
            forall|i: int| 0 <= i < r.pending@.len() ==> r.pending@[i],
            r.excluded@.len() == 0,
            r.matched@.len() == 0,
            r.attempts == 0,
            r.max_attempts == config.retry_count,
            r.close_others == close_others,
            r.minimize_others == minimize_others,
    {
        let n = record.data.len();
        let mut pending: Vec<bool> = Vec::new();
        let mut i: usize = 0;
        while i < n
            invariant
                i <= n,
                pending@.len() == i,
                forall|k: int| 0 <= k < i ==> pending@[k],
            decreases n - i,
        {
            pending.push(true);
            i += 1;
        }
        Reconciler {
            record,
            pending,
            excluded: Vec::new(),
            matched: Vec::new(),
            attempts: 0,
            max_attempts: config.retry_count,
            close_others,
            minimize_others,
        }
    }

    /// Whether some entry is still pending.
    pub fn has_pending(&self) -> (r: bool)
        ensures
            r == exists|i: int| 0 <= i < self.pending@.len() && self.pending@[i],
    {
        let mut i: usize = 0;
        while i < self.pending.len()
            invariant
                i <= self.pending@.len(),
                forall|k: int| 0 <= k < i ==> !self.pending@[k],
            decreases self.pending@.len() - i,
        {
            if self.pending[i] {
                return true;
            }
            i += 1;
        }
        false
    }

    /// Whether another attempt is due: attempts remain and some entry is
    /// still pending.
    pub fn should_continue(&self) -> (r: bool)
        ensures
            r == (self.attempts < self.max_attempts && exists|i: int|
                0 <= i < self.pending@.len() && self.pending@[i]),
    {
        self.attempts < self.max_attempts && self.has_pending()
    }

    /// Records that one attempt, one pass over the live windows, is over.
    pub fn finish_attempt(&mut self)
        requires
            old(self).attempts < old(self).max_attempts,
        ensures
            final(self).attempts == old(self).attempts + 1,
            final(self).record == old(self).record,
            final(self).pending == old(self).pending,
            final(self).excluded == old(self).excluded,
            final(self).matched == old(self).matched,
            final(self).max_attempts == old(self).max_attempts,
            final(self).close_others == old(self).close_others,
            final(self).minimize_others == old(self).minimize_others,
    {
        self.attempts = self.attempts + 1;
    }

    /// Whether the window with this handle resolved an entry earlier.
    pub fn is_matched(&self, handle: u64) -> (r: bool)
        ensures
            r == self.matched@.contains(handle),
    {
        let mut i: usize = 0;
        while i < self.matched.len()
            invariant
                i <= self.matched@.len(),
                forall|k: int| 0 <= k < i ==> self.matched@[k] != handle,
            decreases self.matched@.len() - i,
        {
            if self.matched[i] == handle {
                assert(self.matched@[i as int] == handle);
                return true;
            }
            i += 1;
        }
        false
    }

    /// Whether the window with this handle was found foreign earlier.
    pub fn is_excluded(&self, handle: u64) -> (r: bool)
        ensures
            r == self.excluded@.contains(handle),
    {
        let mut i: usize = 0;
        while i < self.excluded.len()
            invariant
                i <= self.excluded@.len(),
                forall|k: int| 0 <= k < i ==> self.excluded@[k] != handle,
            decreases self.excluded@.len() - i,
        {
            if self.excluded[i] == handle {
                assert(self.excluded@[i as int] == handle);
                return true;
            }
            i += 1;
        }
        false
    }

    /// Classifies one live window, given whether it belongs to the system
    /// and, for each entry, whether the entry's pattern matches the window's
    /// executable path. A window that resolves a pending entry takes it out
    /// of the pending set; a window that resolves none is excluded. Either
    /// way the window is skipped for the rest of the call.
    pub fn classify_matched(&mut self, handle: u64, system: bool, matches: &Vec<bool>) -> (a:
        WindowAction)
        requires
            old(self).wf(),
            matches@.len() == old(self).record.data@.len(),
        ensures
            final(self).wf(),
            a == step_action(
                old(self).record.data@,
                old(self).pending@,
                old(self).excluded@,
                old(self).matched@,
                old(self).close_others,
                old(self).minimize_others,
                handle,
                system,
                matches@,
            ),
            final(self).pending@ == step_pending(
                old(self).pending@,
                old(self).excluded@,
                old(self).matched@,
                handle,
                system,
                matches@,
            ),
            final(self).excluded@ == step_excluded(
                old(self).pending@,
                old(self).excluded@,
                old(self).matched@,
                handle,
                system,
                matches@,
            ),
            final(self).matched@ == step_matched(
                old(self).pending@,
                old(self).excluded@,
                old(self).matched@,
                handle,
                system,
                matches@,
            ),
            final(self).pending_set().subset_of(old(self).pending_set()),
            final(self).record == old(self).record,
            final(self).attempts == old(self).attempts,
            final(self).max_attempts == old(self).max_attempts,
            final(self).close_others == old(self).close_others,
            final(self).minimize_others == old(self).minimize_others,
    {
        proof {
            lemma_pending_only_shrinks(
                self.pending@,
                self.excluded@,
                self.matched@,
                handle,
                system,
                matches@,
            );
        }
        if system || self.is_excluded(handle) || self.is_matched(handle) {
            return WindowAction::Skip;
        }
        let n = self.pending.len();
        let mut j: usize = 0;
        while j < n
            invariant
                *self == *old(self),
                self.wf(),
                !self.excluded@.contains(handle),
                !self.matched@.contains(handle),
                !system,
                n == self.pending@.len(),
                matches@.len() == n,
                j <= n,
                first_match(matches@, self.pending@) == first_match_from(
                    matches@,
                    self.pending@,
                    j as int,
                ),
            decreases n - j,
        {
            if self.pending[j] && matches[j] {
                self.pending.set(j, false);
                self.matched.push(handle);
                return if self.record.data[j].reposition {
                    WindowAction::Reposition(j)
                } else {
                    WindowAction::Matched(j)
                };
            }
            j += 1;
        }
        self.excluded.push(handle);
        if self.close_others {
            WindowAction::Close
        } else if self.minimize_others {
            WindowAction::Minimize
        } else {
            WindowAction::Ignore
        }
    }

    /// Classifies one live window given the path of its executable: the
    /// path decides whether the window belongs to the system and which
    /// entries match it.
    pub fn classify(&mut self, handle: u64, exe_path: &str) -> (a: WindowAction)
        requires
            old(self).wf(),
        ensures
            final(self).wf(),
            a == step_action(
                old(self).record.data@,
                old(self).pending@,
                old(self).excluded@,
                old(self).matched@,
                old(self).close_others,
                old(self).minimize_others,
                handle,
                is_system_path_spec(exe_path@),
                match_flags(old(self).record.data@, exe_path@),
            ),
            final(self).pending@ == step_pending(
                old(self).pending@,
                old(self).excluded@,
                old(self).matched@,
                handle,
                is_system_path_spec(exe_path@),
                match_flags(old(self).record.data@, exe_path@),
            ),
            final(self).excluded@ == step_excluded(
                old(self).pending@,
                old(self).excluded@,
                old(self).matched@,
                handle,
                is_system_path_spec(exe_path@),
                match_flags(old(self).record.data@, exe_path@),
            ),
            final(self).matched@ == step_matched(
                old(self).pending@,
                old(self).excluded@,
                old(self).matched@,
                handle,
                is_system_path_spec(exe_path@),
                match_flags(old(self).record.data@, exe_path@),
            ),
            final(self).pending_set().subset_of(old(self).pending_set()),
            final(self).record == old(self).record,
            final(self).attempts == old(self).attempts,
            final(self).max_attempts == old(self).max_attempts,
            final(self).close_others == old(self).close_others,
            final(self).minimize_others == old(self).minimize_others,
    {
        let system = is_system_path(exe_path);
        let matches = entry_match_flags(&self.record.data, exe_path);
        self.classify_matched(handle, system, &matches)
    }

    /// The indices of the entries still pending, in ascending order.
    pub fn pending_indices(&self) -> (r: Vec<usize>)
        ensures
            forall|k: int| 0 <= k < r@.len() ==> self.pending_set().contains(#[trigger] r@[k] as int),
            forall|i: int| self.pending_set().contains(i) ==> r@.contains(i as usize),
            forall|k: int, l: int| 0 <= k < l < r@.len() ==> r@[k] < r@[l],
    {
        let mut r: Vec<usize> = Vec::new();
        let mut i: usize = 0;
        while i < self.pending.len()
            invariant
                i <= self.pending@.len(),
                forall|k: int| 0 <= k < r@.len() ==> self.pending_set().contains(#[trigger] r@[k] as int),
                forall|k: int| 0 <= k < r@.len() ==> #[trigger] r@[k] < i,
                forall|j: int| 0 <= j < i && self.pending@[j] ==> r@.contains(j as usize),
                forall|k: int, l: int| 0 <= k < l < r@.len() ==> r@[k] < r@[l],
            decreases self.pending@.len() - i,
        {
            let ghost before = r@;
            if self.pending[i] {
                r.push(i);
                assert(r@[r@.len() - 1] == i);
            }
            assert forall|j: int| 0 <= j <= i && self.pending@[j] implies r@.contains(
                j as usize,
            ) by {
                if j < i {
                    let k = choose|k: int| 0 <= k < before.len() && before[k] == j as usize;
                    assert(r@[k] == j as usize);
                } else {
                    assert(r@[r@.len() - 1] == i);
                }
            }
            i += 1;
        }
        r
    }
}

/// Classifying a window never makes an entry pending again: every entry
/// pending afterwards was pending before, and the number of flags is kept.
pub proof fn lemma_pending_only_shrinks(
    pending: Seq<bool>,
    excluded: Seq<u64>,
    matched: Seq<u64>,
    handle: u64,
    system: bool,
    matches: Seq<bool>,
)
    requires
        pending.len() == matches.len(),
    ensures
        step_pending(pending, excluded, matched, handle, system, matches).len() == pending.len(),
        forall|i: int|
            0 <= i < pending.len() && #[trigger] step_pending(
                pending,
                excluded,
                matched,
                handle,
                system,
                matches,
            )[i] ==> pending[i],
{
    lemma_first_match_from(matches, pending, 0);
}

/// The pending set of a restore call never holds more entries than the
/// arrangement has.
pub proof fn lemma_pending_set_bounded(r: &Reconciler)
    requires
        r.wf(),
    ensures
        r.pending_set().finite(),
        r.pending_set().len() <= r.record.data@.len(),
{
    lemma_int_range(0, r.pending@.len() as int);
    assert(r.pending_set().subset_of(set_int_range(0, r.pending@.len() as int)));
    lemma_len_subset(r.pending_set(), set_int_range(0, r.pending@.len() as int));
}

/// A window whose executable lies under the system directory is skipped:
/// it resolves no entry and is never excluded.
pub proof fn lemma_system_window_untouched(
    entries: Seq<WindowDataEntry>,
    pending: Seq<bool>,
    excluded: Seq<u64>,
    matched: Seq<u64>,
    close_others: bool,
    minimize_others: bool,
    handle: u64,
    path: Seq<char>,
)
    requires
        is_system_path_spec(path),
    ensures
        ({
            let matches = match_flags(entries, path);
            &&& step_action(
                entries,
                pending,
                excluded,
                matched,
                close_others,
                minimize_others,
                handle,
                true,
                matches,
            ) == WindowAction::Skip
            &&& step_pending(pending, excluded, matched, handle, true, matches) == pending
            &&& step_excluded(pending, excluded, matched, handle, true, matches) == excluded
            &&& step_matched(pending, excluded, matched, handle, true, matches) == matched
        }),
{
}

/// A classified window is final: a window that was excluded or matched
/// before is skipped without any change of state, and it stays excluded or
/// matched whatever window is classified next.
pub proof fn lemma_classification_is_final(
    entries: Seq<WindowDataEntry>,
    pending: Seq<bool>,
    excluded: Seq<u64>,
    matched: Seq<u64>,
    close_others: bool,
    minimize_others: bool,
    handle: u64,
    system: bool,
    matches: Seq<bool>,
    other: u64,
    other_system: bool,
    other_matches: Seq<bool>,
)
    requires
        excluded.contains(handle) || matched.contains(handle),
    ensures
        step_action(
            entries,
            pending,
            excluded,
            matched,
            close_others,
            minimize_others,
            handle,
            system,
            matches,
        ) == WindowAction::Skip,
        step_pending(pending, excluded, matched, handle, system, matches) == pending,
        step_excluded(pending, excluded, matched, handle, system, matches) == excluded,
        step_matched(pending, excluded, matched, handle, system, matches) == matched,
        excluded.contains(handle) ==> step_excluded(
            pending,
            excluded,
            matched,
            other,
            other_system,
            other_matches,
        ).contains(handle),
        matched.contains(handle) ==> step_matched(
            pending,
            excluded,
            matched,
            other,
            other_system,
            other_matches,
        ).contains(handle),
{
    if excluded.contains(handle) {
        let k = choose|k: int| 0 <= k < excluded.len() && excluded[k] == handle;
        let next = step_excluded(pending, excluded, matched, other, other_system, other_matches);
        assert(next[k] == handle);
    }
    if matched.contains(handle) {
        let k = choose|k: int| 0 <= k < matched.len() && matched[k] == handle;
        let next = step_matched(pending, excluded, matched, other, other_system, other_matches);
        assert(next[k] == handle);
    }
}

/// A window that resolves an entry which asks for no repositioning is left
/// as it is, and the entry still leaves the pending set.
pub proof fn lemma_matched_without_reposition(
    entries: Seq<WindowDataEntry>,
    pending: Seq<bool>,
    excluded: Seq<u64>,
    matched: Seq<u64>,
    close_others: bool,
    minimize_others: bool,
    handle: u64,
    system: bool,
    matches: Seq<bool>,
    i: int,
)
    requires
        pending.len() == entries.len(),
        matches.len() == entries.len(),
        !passed_over(excluded, matched, handle, system),
        first_match(matches, pending) == Some(i),
        !entries[i].reposition,
    ensures
        step_action(
            entries,
            pending,
            excluded,
            matched,
            close_others,
            minimize_others,
            handle,
            system,
            matches,
        ) == WindowAction::Matched(i as usize),
        pending[i],
        !step_pending(pending, excluded, matched, handle, system, matches)[i],
{
    lemma_first_match_from(matches, pending, 0);
}

/// Two windows that match only the same entry, classified in turn: the
/// first resolves the entry, the second is foreign and excluded, and the
/// first, classified again, is skipped.
pub proof fn lemma_second_window_is_foreign(
    entries: Seq<WindowDataEntry>,
    pending: Seq<bool>,
    excluded: Seq<u64>,
    matched: Seq<u64>,
    close_others: bool,
    minimize_others: bool,
    first: u64,
    second: u64,
    matches: Seq<bool>,
    i: int,
)
    requires
        pending.len() == entries.len(),
        matches.len() == entries.len(),
        0 <= i < entries.len(),
        pending[i],
        forall|k: int| 0 <= k < matches.len() ==> (matches[k] <==> k == i),
        first != second,
        !excluded.contains(first),
        !excluded.contains(second),
        !matched.contains(first),
        !matched.contains(second),
    ensures
        ({
            let pending2 = step_pending(pending, excluded, matched, first, false, matches);
            let excluded2 = step_excluded(pending, excluded, matched, first, false, matches);
            let matched2 = step_matched(pending, excluded, matched, first, false, matches);
            let pending3 = step_pending(pending2, excluded2, matched2, second, false, matches);
            let excluded3 = step_excluded(pending2, excluded2, matched2, second, false, matches);
            let matched3 = step_matched(pending2, excluded2, matched2, second, false, matches);
            &&& step_action(
                entries,
                pending,
                excluded,
                matched,
                close_others,
                minimize_others,
                first,
                false,
                matches,
            ) == (if entries[i].reposition {
                WindowAction::Reposition(i as usize)
            } else {
                WindowAction::Matched(i as usize)
            })
            &&& matched2 == matched.push(first)
            &&& step_action(
                entries,
                pending2,
                excluded2,
                matched2,
                close_others,
                minimize_others,
                second,
                false,
                matches,
            ) == foreign_action(close_others, minimize_others)
            &&& excluded3 == excluded2.push(second)
            &&& step_action(
                entries,
                pending3,
                excluded3,
                matched3,
                close_others,
                minimize_others,
                first,
                false,
                matches,
            ) == WindowAction::Skip
        }),
{
    lemma_first_match_from(matches, pending, 0);
    match first_match(matches, pending) {
        Some(j) => {
            assert(j == i);
        },
        None => {
            assert(!(pending[i] && matches[i]));
        },
    }
    let pending2 = pending.update(i, false);
    let matched2 = matched.push(first);
    assert(!excluded.push(second).contains(first)) by {
        if excluded.push(second).contains(first) {
            let k = choose|k: int| 0 <= k < excluded.push(second).len() && excluded.push(second)[k] == first;
            if k < excluded.len() {
                assert(excluded[k] == first);
            }
        }
    }
    assert(!matched2.contains(second)) by {
        if matched2.contains(second) {
            let k = choose|k: int| 0 <= k < matched2.len() && matched2[k] == second;
            if k < matched.len() {
                assert(matched[k] == second);
            }
        }
    }
    assert(matched2[matched.len() as int] == first);
    lemma_first_match_from(matches, pending2, 0);
    match first_match(matches, pending2) {
        Some(j) => {
            assert(matches[j]);
        },
        None => {},
    }
}

} // verus!
