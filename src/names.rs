use vstd::prelude::*;

use crate::window_data::WindowData;

verus! {

/// The kind of filesystem entry that a path is expected to name.
#[derive(Clone, Copy, Debug, PartialEq, Eq, Structural)]
pub enum ResourceType {
    Dir,
    File,
}

/// Why an arrangement name was refused.
#[derive(Clone, Copy, Debug, PartialEq, Eq, Structural)]
pub enum NameError {
    /// The name holds a character other than an ASCII letter or digit, an
    /// underscore or a hyphen, or is empty.
    InvalidName,
    /// The saved record declares another name than the one it was stored
    /// under.
    NameMismatch,
}

/// The pattern that arrangement names must match.
pub const NAME_PATTERN: &'static str = "^[a-zA-Z0-9_-]+$";

/// An ASCII letter or digit, an underscore or a hyphen.
pub open spec fn is_name_char(c: char) -> bool {
    ||| (97 <= c as u32 <= 122)
    ||| (65 <= c as u32 <= 90)
    ||| (48 <= c as u32 <= 57)
    ||| c == '_'
    ||| c == '-'
}

/// A valid arrangement name: one or more name characters.
pub open spec fn is_valid_name(s: Seq<char>) -> bool {
    s.len() > 0 && forall|i: int| 0 <= i < s.len() ==> is_name_char(#[trigger] s[i])
}

/// Relies on regex::Regex::new, which compiles the name pattern, and on
/// regex::Regex::is_match: the pattern is anchored at both ends of the text
/// and accepts one or more characters of its ASCII class.
#[verifier::external_body]
fn matches_name_pattern(pattern: &str, text: &str) -> (r: bool)
    requires
        pattern@ == NAME_PATTERN@,
    ensures
        r == is_valid_name(text@),
{
    match regex::Regex::new(pattern) {
        Ok(re) => re.is_match(text),
        Err(_) => false,
    }
}

/// Checks that a name can serve as an arrangement name, and so as a file
/// name.
pub fn validate_name(name: &str) -> (r: Result<(), NameError>)
    ensures
        r is Ok <==> is_valid_name(name@),
        r matches Err(e) ==> e == NameError::InvalidName,
{
    if matches_name_pattern(NAME_PATTERN, name) {
        Ok(())
    } else {
        Err(NameError::InvalidName)
    }
}

fn same_text(a: &str, b: &str) -> (r: bool)
    ensures
        r == (a@ == b@),
{
    let n = a.unicode_len();
    if n != b.unicode_len() {
        return false;
    }
    let mut i: usize = 0;
    while i < n
        invariant
            n as nat == a@.len(),
            n as nat == b@.len(),
            i <= n,
            forall|k: int| 0 <= k < i ==> a@[k] == b@[k],
        decreases n - i,
    {
        if a.get_char(i) != b.get_char(i) {
            return false;
        }
        i += 1;
    }
    assert(a@ =~= b@);
    true
}

/// Checks a loaded record against the name it was loaded under: the record
/// must declare that same name.
pub fn check_record_name(record: &WindowData, name: &str) -> (r: Result<(), NameError>)
    ensures
        r is Ok <==> record.name@ == name@,
        r matches Err(e) ==> e == NameError::NameMismatch,
{
    if same_text(record.name.as_str(), name) {
        Ok(())
    } else {
        Err(NameError::NameMismatch)
    }
}

/// `s` ends with `suffix`.
pub open spec fn ends_with(s: Seq<char>, suffix: Seq<char>) -> bool {
    suffix.len() <= s.len() && s.subrange(s.len() - suffix.len(), s.len() as int) == suffix
}

/// `s` with every trailing repetition of a non-empty `suffix` removed.
pub open spec fn strip_suffixes(s: Seq<char>, suffix: Seq<char>) -> Seq<char>
    decreases s.len(),
{
    if suffix.len() > 0 && ends_with(s, suffix) {
        strip_suffixes(s.subrange(0, s.len() - suffix.len()), suffix)
    } else {
        s
    }
}

/// The end, at most `end`, of the prefix of `s` left once every trailing
/// repetition of `suffix` is removed from the first `end` characters.
fn strip_suffixes_end(s: &str, end: usize, suffix: &Vec<char>) -> (r: usize)
    requires
        end <= s@.len(),
        suffix@.len() > 0,
    ensures
        r <= end,
        s@.subrange(0, r as int) == strip_suffixes(s@.subrange(0, end as int), suffix@),
{
    let k = suffix.len();
    let mut e = end;
    while e >= k
        invariant
            e <= end <= s@.len(),
            k == suffix@.len() > 0,
            strip_suffixes(s@.subrange(0, end as int), suffix@) == strip_suffixes(
                s@.subrange(0, e as int),
                suffix@,
            ),
        decreases e,
    {
        let start = e - k;
        let mut j: usize = 0;
        while j < k
            invariant
                start + k == e <= end <= s@.len(),
                k == suffix@.len(),
                strip_suffixes(s@.subrange(0, end as int), suffix@) == strip_suffixes(
                    s@.subrange(0, e as int),
                    suffix@,
                ),
                j <= k,
                forall|m: int| 0 <= m < j ==> s@[start + m] == suffix@[m],
            decreases k - j,
        {
            if s.get_char(start + j) != suffix[j] {
                let ghost pre = s@.subrange(0, e as int);
                assert(pre.subrange(pre.len() - k, pre.len() as int)[j as int] != suffix@[j as int]);
                assert(!ends_with(pre, suffix@));
                return e;
            }
            j += 1;
        }
        let ghost pre = s@.subrange(0, e as int);
        assert(pre.subrange(pre.len() - k, pre.len() as int) =~= suffix@);
        assert(pre.subrange(0, pre.len() - k) =~= s@.subrange(0, start as int));
        e = start;
    }
    let ghost pre = s@.subrange(0, e as int);
    assert(!ends_with(pre, suffix@));
    e
}

/// The path of the application's root directory, given the path of its
/// data directory: the data path with trailing `\data` and then trailing
/// `/data` components removed.
pub fn get_root_dir_path(data_dir: &str) -> (r: String)
    ensures
        r@ == strip_suffixes(
            strip_suffixes(data_dir@, seq!['\\', 'd', 'a', 't', 'a']),
            seq!['/', 'd', 'a', 't', 'a'],
        ),
{
    let len = data_dir.unicode_len();
    let back = vec!['\\', 'd', 'a', 't', 'a'];
    let fwd = vec!['/', 'd', 'a', 't', 'a'];
    assert(data_dir@.subrange(0, len as int) =~= data_dir@);
    let e1 = strip_suffixes_end(data_dir, len, &back);
    let e2 = strip_suffixes_end(data_dir, e1, &fwd);
    assert(data_dir@.subrange(0, e1 as int).subrange(0, e2 as int) =~= data_dir@.subrange(
        0,
        e2 as int,
    ));
    let kept = data_dir.substring_char(0, e2);
    String::from_str(kept)
}

} // verus!
