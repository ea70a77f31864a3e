//! The inbound cache-control gate: a request bearing the designated header —
//! its mere presence is the signal, the value is irrelevant — clears the whole
//! cache and is answered on the spot with a synthetic response, never reaching
//! the rewrite stage. Any other request passes through unchanged.

use vstd::prelude::*;
use vstd::string::StringExecFns;

use crate::cache::TierCache;
use crate::config::ConfigView;

verus! {

/// The synthetic response a cache-clearing request is answered with: a status
/// distinct from ordinary success or failure and a fixed diagnostic.
pub struct GateResponse {
    pub status: u16,
    pub message: String,
    pub extension_code: String,
}

pub enum GateAction {
    Continue,
    Break(GateResponse),
}

/// The inbound checkpoint. A request without the cache-control header passes
/// through with the cache untouched; one bearing it has the whole cache
/// cleared first and is then stopped with the accepted (202) status and the
/// fixed diagnostic — a control-flow short-circuit, not an error.
pub fn cache_control(cache: &mut TierCache, clear_cache_header_present: bool) -> (action:
    GateAction)
    requires
        old(cache).wf(),
    ensures
        final(cache).wf(),
        final(cache).capacity() == old(cache).capacity(),
        !clear_cache_header_present ==> action is Continue && *final(cache) == *old(cache),
        clear_cache_header_present ==> {
            &&& final(cache).entries() == Seq::<(Seq<char>, ConfigView)>::empty()
            &&& (action matches GateAction::Break(response) && response.status == 202
                && response.message@ == "cleared cache"@ && response.extension_code@ == "CACHE"@)
        },
{
    if !clear_cache_header_present {
        GateAction::Continue
    } else {
        cache.clear();
        GateAction::Break(
            GateResponse {
                status: 202,
                message: String::from_str("cleared cache"),
                extension_code: String::from_str("CACHE"),
            },
        )
    }
}

} // verus!
