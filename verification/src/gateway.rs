//! What the gateway decides before its event loop runs.

use vstd::prelude::*;

verus! {

/// Where the gateway keeps its id from one run to the next.
pub fn id_path() -> (path: &'static str)
    ensures
        path@ == "/var/lib/firezone/gateway_id"@,
{
    "/var/lib/firezone/gateway_id"
}

/// The id that the gateway is known by, where it has one: the id from its
/// environment, or else the id that it has stored, where either is there and
/// not empty.
pub open spec fn spec_known_firezone_id(env_id: Option<String>, stored_id: Option<String>) -> Option<String> {
    if env_id matches Some(id) && id@.len() > 0 {
        env_id
    } else if stored_id matches Some(id) && id@.len() > 0 {
        stored_id
    } else {
        None
    }
}

/// The id that the gateway is known by; `None` where it has to make one up
/// and store it.
pub fn known_firezone_id(env_id: Option<String>, stored_id: Option<String>) -> (id: Option<String>)
    ensures
        id == spec_known_firezone_id(env_id, stored_id),
{
    if let Some(id) = env_id {
        if id.as_str().unicode_len() > 0 {
            return Some(id);
        }
    }
    if let Some(id) = stored_id {
        if id.as_str().unicode_len() > 0 {
            return Some(id);
        }
    }
    None
}

} // verus!
