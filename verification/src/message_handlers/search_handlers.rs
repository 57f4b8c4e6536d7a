use vstd::prelude::*;

verus! {

/// The SQL `LIKE` pattern that finds every username containing `username`.
pub fn username_like_pattern(username: &str) -> (pattern: String)
    ensures
        pattern@ == "%"@ + username@ + "%"@,
{
    let mut pattern = String::from_str("%");
    pattern.append(username);
    pattern.append("%");
    pattern
}

} // verus!
