use vstd::prelude::*;

verus! {

/// Settings of the restore loop: how many attempts are made to find the
/// saved windows, and how many milliseconds pass before each attempt.
pub struct ConfigData {
    pub retry_count: usize,
    pub retry_interval: usize,
}

/// Number of attempts used when the configuration gives none.
pub fn retry_count_default() -> (r: usize)
    ensures
        r == 5,
{
    5
}

/// Milliseconds between attempts used when the configuration gives none.
pub fn retry_interval_default() -> (r: usize)
    ensures
        r == 750,
{
    750
}

impl Default for ConfigData {
    fn default() -> (r: ConfigData)
        ensures
            r.retry_count == 5,
            r.retry_interval == 750,
    {
        ConfigData { retry_count: retry_count_default(), retry_interval: retry_interval_default() }
    }
}

} // verus!
