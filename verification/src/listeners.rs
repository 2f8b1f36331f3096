//! How a listener on something the page owns is registered.
//!
//! `window`, `document` and a scope's container all outlive the scope, so each
//! listener on them is registered with the instance's own abort signal as
//! well as being taken off when its handle is dropped. What a registration
//! says beyond that is here.

use vstd::prelude::*;

verus! {

/// How a registration behaves, beyond the abort signal every one of them
/// carries.
#[derive(Clone, Copy, Debug, Default, PartialEq, Eq, Structural)]
pub struct ListenOptions {
    /// Hear the event on its way down, before anything inside the target.
    pub capture: bool,
    /// Promise never to cancel the event, so the browser can scroll without
    /// waiting for the handler. Always stated, never left to the browser: a
    /// handler that cannot cancel what it was registered to cancel fails
    /// without a word.
    pub passive: bool,
}

} // verus!
