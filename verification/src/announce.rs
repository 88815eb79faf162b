//! Announces that a node accepted.

use crate::inspection::{DestinationHash, InstantMillis};
use vstd::prelude::*;

verus! {

/// The hash of an identity.
#[derive(Clone, Copy, Debug, PartialEq, Eq)]
pub struct IdentityHash(pub [u8; 16]);

/// The number of hops that a packet has made.
#[derive(Clone, Copy, Debug, PartialEq, Eq, Structural)]
pub struct HopCount(pub u8);

/// The identity of an interface.
#[derive(Clone, Copy, Debug, PartialEq, Eq)]
pub struct InterfaceId(pub [u8; 8]);

/// An announce as it came in.
#[derive(Clone, Copy, Debug)]
pub struct AnnounceObservation<'a> {
    pub destination: DestinationHash,
    pub announced_identity: IdentityHash,
    pub hops: HopCount,
    pub source_interface: InterfaceId,
    pub arrived_at: InstantMillis,
    pub app_data: &'a [u8],
    pub is_path_response: bool,
}

/// Something that the engine wrote down.
pub enum Journaled<'a> {
    /// An announce was heard and accepted.
    AnnounceHeard { observation: AnnounceObservation<'a> },
    /// Something else.
    Other,
}

/// Hands an accepted announce to the observer, where there is one, and returns what it made of the
/// announce. Everything else that was written down is kept from it.
pub fn notify_accepted_announce<'a, A, F: FnOnce(AnnounceObservation<'a>) -> A>(
    observer: Option<F>,
    journaled: &Journaled<'a>,
) -> (r: Option<A>)
    requires
        observer matches Some(observer) ==> forall|observation: AnnounceObservation<'a>|
            call_requires(observer, (observation,)),
    ensures
        match (observer, *journaled) {
            (Some(observer), Journaled::AnnounceHeard { observation }) => r matches Some(made)
                && call_ensures(observer, (observation,), made),
            _ => r is None,
        },
{
    match journaled {
        Journaled::AnnounceHeard { observation } => match observer {
            Some(observer) => {
                assert(call_requires(observer, (*observation,)));
                Some(observer(*observation))
            },
            None => None,
        },
        Journaled::Other => None,
    }
}

} // verus!
