//! What a decoder offers to the format negotiator only.

use crate::decoder::stateless::StatelessBackendError;
use crate::DecodedFormat;
use vstd::prelude::*;

verus! {

/// The part of a stateless decoder that a client reaches through a format negotiator, and
/// not on the decoder itself.
pub trait StatelessVideoDecoder: crate::decoder::stateless::StatelessVideoDecoder {
    /// Whether the format can be negotiated: a sequence has started, and none of its
    /// frames has been decoded.
    spec fn can_negotiate(&self) -> bool;

    /// What `try_format` makes of the decoder `before`, with the result `changed`, beyond
    /// what holds of every decoder: what the decoder keeps of its own state.
    spec fn negotiated(
        &self,
        before: &Self,
        format: DecodedFormat,
        changed: Result<(), StatelessBackendError>,
    ) -> bool;

    /// Tries to have frames handed out in `format`. If it succeeds, every frame that is
    /// handed out after the call is in the new format.
    ///
    /// Fails with `NegotiationFailed` if the format cannot be negotiated, or not to
    /// `format`. If it fails, the format and the resources are as they were. Either way the
    /// stream is the same, and the format can be negotiated after the call if it could
    /// be before.
    fn try_format(&mut self, format: DecodedFormat) -> (changed: Result<
        (),
        StatelessBackendError,
    >)
        requires
            old(self).valid(),
        ensures
            final(self).valid(),
            changed is Ok ==> old(self).can_negotiate() && final(self).spec_format() == Some(
                format,
            ),
            !old(self).can_negotiate() ==> changed matches Err(
                StatelessBackendError::NegotiationFailed(_),
            ),
            changed is Err ==> final(self).spec_format() == old(self).spec_format()
                && final(self).spec_num_resources_left() == old(self).spec_num_resources_left(),
            final(self).can_negotiate() == old(self).can_negotiate(),
            final(self).spec_coded_resolution() == old(self).spec_coded_resolution(),
            final(self).spec_num_resources_total() == old(self).spec_num_resources_total(),
            final(self).negotiated(old(self), format, changed),
    ;
}

} // verus!
