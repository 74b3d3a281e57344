//! The cancellation channel of the `drain` crate, as Verus sees it: two opaque
//! halves that are carried through the registry.
use vstd::prelude::*;

verus! {

/// `drain::Signal`, the half that fires a drain and awaits every watcher.
#[verifier::external_type_specification]
#[verifier::external_body]
pub struct ExSignal(drain::Signal);

/// `drain::Watch`, the cloneable half that observes a drain.
#[verifier::external_type_specification]
#[verifier::external_body]
pub struct ExWatch(drain::Watch);

/// Relies on `drain::channel`: it makes a fresh signal and its first watcher,
/// and never panics.
pub assume_specification[ drain::channel ]() -> (drain::Signal, drain::Watch);

/// Relies on the derived `Clone` of `drain::Watch`: it clones two channel
/// handles and never panics.
pub assume_specification[ <drain::Watch as Clone>::clone ](w: &drain::Watch) -> drain::Watch;

} // verus!
