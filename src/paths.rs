use vstd::prelude::*;

verus! {

/// Whether the glob pattern is accepted by the pattern compiler.
pub uninterp spec fn glob_valid(pattern: Seq<char>) -> bool;

/// Whether a valid glob pattern matches the whole of the given path.
pub uninterp spec fn glob_matches(pattern: Seq<char>, path: Seq<char>) -> bool;

/// Relies on glob::Pattern::new to accept or reject the pattern, and on
/// glob::Pattern::matches to test the path against the compiled pattern.
/// Both results depend on the two strings alone.
#[verifier::external_body]
fn glob_match(pattern: &str, path: &str) -> (r: Option<bool>)
    ensures
        r is Some <==> glob_valid(pattern@),
        r matches Some(b) ==> b == glob_matches(pattern@, path@),
{
    match glob::Pattern::new(pattern) {
        Ok(compiled) => Some(compiled.matches(path)),
        Err(_) => None,
    }
}

/// A pattern matches a path when it is valid and matches it; an invalid
/// pattern matches nothing.
pub open spec fn pattern_matches(pattern: Seq<char>, path: Seq<char>) -> bool {
    glob_valid(pattern) && glob_matches(pattern, path)
}

/// Tests a concrete path against a glob pattern. An invalid pattern is not
/// an error: it simply matches no path.
pub fn entry_matches_path(pattern: &str, path: &str) -> (r: bool)
    ensures
        r == pattern_matches(pattern@, path@),
{
    match glob_match(pattern, path) {
        Some(b) => b,
        None => false,
    }
}

/// `c` equals the lower-case character `lower`, up to ASCII case.
pub open spec fn same_ignoring_ascii_case(c: char, lower: char) -> bool {
    c == lower || (97 <= lower as u32 <= 122 && c as u32 + 32 == lower as u32)
}

/// `s` starts with the lower-case text `lower`, up to ASCII case.
pub open spec fn has_prefix_ignoring_case(s: Seq<char>, lower: Seq<char>) -> bool {
    s.len() >= lower.len() && forall|i: int|
        0 <= i < lower.len() ==> same_ignoring_ascii_case(#[trigger] s[i], lower[i])
}

/// The system directory, written with the given path separator.
pub open spec fn system_prefix(sep: char) -> Seq<char> {
    seq!['c', ':', sep, 'w', 'i', 'n', 'd', 'o', 'w', 's']
}

/// A path lies under the system directory when it starts with it, in either
/// separator style and in any ASCII case.
pub open spec fn is_system_path_spec(path: Seq<char>) -> bool {
    has_prefix_ignoring_case(path, system_prefix('\\')) || has_prefix_ignoring_case(
        path,
        system_prefix('/'),
    )
}

fn has_prefix_ignoring_case_exec(s: &str, len: usize, lower: &Vec<char>) -> (r: bool)
    requires
        len as nat == s@.len(),
    ensures
        r == has_prefix_ignoring_case(s@, lower@),
{
    if len < lower.len() {
        return false;
    }
    let mut i: usize = 0;
    while i < lower.len()
        invariant
            len as nat == s@.len(),
            lower@.len() <= s@.len(),
            i <= lower@.len(),
            forall|k: int| 0 <= k < i ==> same_ignoring_ascii_case(#[trigger] s@[k], lower@[k]),
        decreases lower@.len() - i,
    {
        let c = s.get_char(i);
        let l = lower[i];
        let lu = l as u32;
        let same = c == l || (97 <= lu && lu <= 122 && c as u32 + 32 == lu);
        if !same {
            assert(!same_ignoring_ascii_case(s@[i as int], lower@[i as int]));
            return false;
        }
        i += 1;
    }
    true
}

/// Whether a module path lies under the system directory, whose windows are
/// never matched nor disposed of.
pub fn is_system_path(path: &str) -> (r: bool)
    ensures
        r == is_system_path_spec(path@),
{
    let len = path.unicode_len();
    let back = vec!['c', ':', '\\', 'w', 'i', 'n', 'd', 'o', 'w', 's'];
    let fwd = vec!['c', ':', '/', 'w', 'i', 'n', 'd', 'o', 'w', 's'];
    assert(back@ == system_prefix('\\'));
    assert(fwd@ == system_prefix('/'));
    has_prefix_ignoring_case_exec(path, len, &back) || has_prefix_ignoring_case_exec(
        path,
        len,
        &fwd,
    )
}

/// The texts of the resolved lookups that lie outside the system directory,
/// in order.
pub open spec fn running_paths_spec(lookups: Seq<Option<String>>) -> Seq<Seq<char>>
    decreases lookups.len(),
{
    if lookups.len() == 0 {
        Seq::empty()
    } else {
        let init = running_paths_spec(lookups.drop_last());
        match lookups.last() {
            Some(p) => if is_system_path_spec(p@) {
                init
            } else {
                init.push(p@)
            },
            None => init,
        }
    }
}

/// The executable paths of the running windows that a restore call may
/// leave unlaunched, given the path lookup of each window at the start of
/// the call: the resolved ones, without those under the system directory.
pub fn running_module_paths(lookups: &Vec<Option<String>>) -> (r: Vec<String>)
    ensures
        r@.map_values(|s: String| s@) == running_paths_spec(lookups@),
{
    let mut r: Vec<String> = Vec::new();
    let mut i: usize = 0;
    while i < lookups.len()
        invariant
            i <= lookups@.len(),
            r@.map_values(|s: String| s@) == running_paths_spec(lookups@.take(i as int)),
        decreases lookups@.len() - i,
    {
        assert(lookups@.take(i + 1).drop_last() =~= lookups@.take(i as int));
        assert(lookups@.take(i + 1).last() == lookups@[i as int]);
        let ghost before = r@;
        match &lookups[i] {
            Some(p) => {
                if !is_system_path(p.as_str()) {
                    r.push(p.clone());
                    assert(r@.map_values(|s: String| s@) =~= before.map_values(|s: String| s@).push(
                        p@,
                    ));
                }
            },
            None => {},
        }
        i += 1;
    }
    assert(lookups@.take(lookups@.len() as int) =~= lookups@);
    r
}

} // verus!
