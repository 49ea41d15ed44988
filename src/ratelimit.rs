use vstd::prelude::*;

verus! {

/// Whether a request presenting `provided` is exempt from rate limiting:
/// only where a bypass secret is configured (an empty one switches the
/// feature off) and the request presents exactly that secret.
pub fn bypasses_rate_limit(configured: &String, provided: &Option<String>) -> (r: bool)
    ensures
        r == (configured@.len() > 0 && provided is Some && provided->0@ == configured@),
{
    if configured.as_str().is_empty() {
        return false;
    }
    match provided {
        Some(p) => *p == *configured,
        None => false,
    }
}

} // verus!
