//! The interface of stateless decoders, their errors, and the format negotiator.
//!
//! A stateless decoder can only process a unit of input if an output resource is free to
//! receive its content. `decode` therefore refuses work while none is, and the client calls it
//! again with the same input once it has given a frame back.

use crate::decoder::DecoderEvent;
use crate::DecodedFormat;
use crate::Resolution;
use vstd::prelude::*;
use vstd::std_specs::convert::FromSpecImpl;

pub mod private;

verus! {

/// What a backend can fail with.
#[derive(Debug)]
pub enum StatelessBackendError {
    /// No output surface is free. Give a frame back and try again.
    OutOfResources,
    /// The picture was required to be ready and is still being rendered.
    ResourceNotReady,
    /// The driver does not offer this surface or pixel format.
    UnsupportedFormat,
    /// The format cannot be changed now, or not to the requested one.
    NegotiationFailed(String),
    /// A failure that the driver reported, with its description.
    Other(String),
}

pub type StatelessBackendResult<T> = Result<T, StatelessBackendError>;

/// What `decode` can fail with.
#[derive(Debug)]
pub enum DecodeError {
    /// No input is accepted until the client has given a frame back. The same input is to
    /// be submitted again afterwards.
    CheckEvents,
    /// The bitstream could not be parsed, or breaks a rule of the codec.
    DecoderError(String),
    /// The backend failed.
    BackendError(StatelessBackendError),
}

impl StatelessBackendError {
    /// The text of `message`.
    pub open spec fn spec_message(&self) -> Seq<char> {
        match self {
            StatelessBackendError::OutOfResources => {
                "not enough resources to proceed with the operation now"@
            },
            StatelessBackendError::ResourceNotReady => "this resource is not ready"@,
            StatelessBackendError::UnsupportedFormat => "this format is not supported"@,
            StatelessBackendError::NegotiationFailed(_) => "negotiation failed"@,
            StatelessBackendError::Other(cause) => cause@,
        }
    }

    /// A description of the error for the user.
    pub fn message(&self) -> (text: String)
        ensures
            text@ == self.spec_message(),
    {
        match self {
            StatelessBackendError::OutOfResources => {
                "not enough resources to proceed with the operation now".to_string()
            },
            StatelessBackendError::ResourceNotReady => "this resource is not ready".to_string(),
            StatelessBackendError::UnsupportedFormat => "this format is not supported".to_string(),
            StatelessBackendError::NegotiationFailed(_) => "negotiation failed".to_string(),
            StatelessBackendError::Other(cause) => cause.clone(),
        }
    }
}

impl DecodeError {
    /// The text of `message`.
    pub open spec fn spec_message(&self) -> Seq<char> {
        match self {
            DecodeError::CheckEvents => {
                "cannot accept more input until pending events are processed"@
            },
            DecodeError::DecoderError(cause) => "decoder error: "@ + cause@,
            DecodeError::BackendError(cause) => "backend error: "@ + cause.spec_message(),
        }
    }

    /// A description of the error for the user.
    pub fn message(&self) -> (text: String)
        ensures
            text@ == self.spec_message(),
    {
        match self {
            DecodeError::CheckEvents => {
                "cannot accept more input until pending events are processed".to_string()
            },
            DecodeError::DecoderError(cause) => {
                "decoder error: ".to_string().concat(cause.as_str())
            },
            DecodeError::BackendError(cause) => {
                let inner = cause.message();
                "backend error: ".to_string().concat(inner.as_str())
            },
        }
    }
}

impl From<StatelessBackendError> for DecodeError {
    /// A backend that is out of resources asks the client to check the pending events; every
    /// other failure is passed on.
    fn from(error: StatelessBackendError) -> (converted: DecodeError) {
        match error {
            StatelessBackendError::OutOfResources => DecodeError::CheckEvents,
            other => DecodeError::BackendError(other),
        }
    }
}

impl FromSpecImpl<StatelessBackendError> for DecodeError {
    open spec fn obeys_from_spec() -> bool {
        true
    }

    open spec fn from_spec(error: StatelessBackendError) -> DecodeError {
        match error {
            StatelessBackendError::OutOfResources => DecodeError::CheckEvents,
            other => DecodeError::BackendError(other),
        }
    }
}

/// Stateless video decoder interface.
///
/// A stateless decoder differs from a stateful one in that its input and output queues are
/// not operating independently: a new decode unit can only be processed if there is already
/// an output resource available to receive its decoded content.
///
/// Therefore `decode` can refuse work if there is no output resource available at the time
/// of calling, in which case the caller is responsible for calling `decode` again with the
/// same parameters after giving at least one frame back to the decoder.
pub trait StatelessVideoDecoder {
    /// The handle to a decoded frame.
    type Handle;

    /// What describes a stream whose format can be negotiated.
    type FormatHint;

    /// The invariant of the decoder. Every method keeps it.
    spec fn valid(&self) -> bool;

    /// The layout that frames are handed out in, if one is set.
    spec fn spec_format(&self) -> Option<DecodedFormat>;

    /// The coded resolution of the stream, once its first frame has been seen.
    spec fn spec_coded_resolution(&self) -> Option<Resolution>;

    /// The number of output resources that were allocated.
    spec fn spec_num_resources_total(&self) -> usize;

    /// The number of output resources that the next decode requests can take.
    spec fn spec_num_resources_left(&self) -> usize;

    /// Tries to decode `bitstream`, which holds the frame of `timestamp`, and returns the
    /// frames that are ready to be shown.
    ///
    /// Fails with `DecodeError::CheckEvents` if no output resource is free. The client
    /// then gives a frame back and calls the method again with the same data.
    fn decode(&mut self, timestamp: u64, bitstream: &[u8]) -> (decoded: Result<
        Vec<Self::Handle>,
        DecodeError,
    >)
        requires
            old(self).valid(),
        ensures
            final(self).valid(),
    ;

    /// Finishes every pending decode request, and returns the frames that are ready to be
    /// shown.
    fn flush(&mut self) -> (flushed: Result<Vec<Self::Handle>, DecodeError>)
        requires
            old(self).valid(),
        ensures
            final(self).valid(),
            final(self).spec_format() == old(self).spec_format(),
            final(self).spec_coded_resolution() == old(self).spec_coded_resolution(),
            final(self).spec_num_resources_total() == old(self).spec_num_resources_total(),
    ;

    /// Gets the number of output resources left in the backend. It never exceeds the
    /// total.
    fn num_resources_left(&self) -> (left: usize)
        requires
            self.valid(),
        ensures
            left == self.spec_num_resources_left(),
            left <= self.spec_num_resources_total(),
    ;

    /// Gets the number of output resources allocated by the backend.
    fn num_resources_total(&self) -> (total: usize)
        ensures
            total == self.spec_num_resources_total(),
    ;

    /// Returns the current coded resolution of the bitstream being processed. This is
    /// `None` if the stream parameters have not been read yet.
    fn coded_resolution(&self) -> (resolution: Option<Resolution>)
        ensures
            resolution == self.spec_coded_resolution(),
    ;

    /// Returns the next event, if there is any pending.
    fn next_event(&mut self) -> (event: Option<DecoderEvent<Self::FormatHint, Self::Handle>>)
        requires
            old(self).valid(),
        ensures
            final(self).valid(),
            final(self).spec_format() == old(self).spec_format(),
            final(self).spec_coded_resolution() == old(self).spec_coded_resolution(),
            final(self).spec_num_resources_total() == old(self).spec_num_resources_total(),
    ;

    /// Returns the current output format, if one is currently set.
    fn format(&self) -> (format: Option<DecodedFormat>)
        ensures
            format == self.spec_format(),
    ;
}

/// Lets the client look at the format of a new sequence and change it, while it holds the
/// decoder. The negotiation ends with `finish`, which applies the format and lets the
/// decoder go on.
pub struct StatelessDecoderFormatNegotiator<'a, D, H, F> where
    D: StatelessVideoDecoder,
    F: Fn(&mut D, &H),
 {
    /// The decoder that the negotiation is done for.
    pub decoder: &'a mut D,
    /// What describes the stream whose format is negotiated.
    pub format_hint: H,
    /// What `finish` calls to apply the format and to let the decoder go on.
    pub apply_format: F,
}

impl<'a, D, H, F> StatelessDecoderFormatNegotiator<'a, D, H, F> where
    D: StatelessVideoDecoder + private::StatelessVideoDecoder,
    F: Fn(&mut D, &H),
 {
    /// Creates a new format negotiator.
    ///
    /// `decoder` is the decoder negotiation is done for. The decoder is exclusively
    /// borrowed as long as this object exists.
    ///
    /// `format_hint` is a codec-specific structure describing the properties of the format.
    ///
    /// `apply_format` is called by `finish`, and is responsible for applying the format
    /// and allowing decoding to resume.
    pub fn new(decoder: &'a mut D, format_hint: H, apply_format: F) -> (negotiator: Self)
        ensures
            *negotiator.decoder == *old(decoder),
            *final(negotiator.decoder) == *final(decoder),
            negotiator.format_hint == format_hint,
            negotiator.apply_format == apply_format,
    {
        Self { decoder, format_hint, apply_format }
    }

    /// Gets the number of output resources allocated for the stream.
    pub fn num_resources_total(&self) -> (total: usize)
        ensures
            total == old(self.decoder).spec_num_resources_total(),
    {
        self.decoder.num_resources_total()
    }

    /// Returns the coded resolution of the stream whose format is negotiated.
    pub fn coded_resolution(&self) -> (resolution: Resolution)
        requires
            self.decoder.spec_coded_resolution() is Some,
        ensures
            Some(resolution) == old(self.decoder).spec_coded_resolution(),
    {
        self.decoder.coded_resolution().unwrap()
    }

    /// Returns the current output format, if one is currently set.
    pub fn format(&self) -> (format: Option<DecodedFormat>)
        ensures
            format == old(self.decoder).spec_format(),
    {
        self.decoder.format()
    }

    /// Tries to have frames handed out in `format`. If it succeeds, every frame that is
    /// handed out after the call is in the new format.
    ///
    /// Fails with `NegotiationFailed` if the format cannot be negotiated, or not to
    /// `format`. If it fails, the format and the resources are as they were, and the client
    /// may try another format. Either way the negotiator still holds the decoder, for the
    /// same stream, and the decoder has kept of its state what its `negotiated` says.
    pub fn try_format(&mut self, format: DecodedFormat) -> (changed: Result<
        (),
        StatelessBackendError,
    >)
        requires
            old(self).decoder.valid(),
        ensures
            final(self).decoder.valid(),
            changed is Ok ==> old(self).decoder.can_negotiate()
                && final(self).decoder.spec_format() == Some(format),
            !old(self).decoder.can_negotiate() ==> changed matches Err(
                StatelessBackendError::NegotiationFailed(_),
            ),
            changed is Err ==> final(self).decoder.spec_format() == old(self).decoder.spec_format()
                && final(self).decoder.spec_num_resources_left()
                == old(self).decoder.spec_num_resources_left(),
            final(self).decoder.can_negotiate() == old(self).decoder.can_negotiate(),
            final(self).decoder.spec_coded_resolution()
                == old(self).decoder.spec_coded_resolution(),
            final(self).decoder.spec_num_resources_total()
                == old(self).decoder.spec_num_resources_total(),
            final(self).decoder.negotiated(old(self).decoder, format, changed),
            *final(final(self).decoder) == *final(old(self).decoder),
            final(self).format_hint == old(self).format_hint,
            final(self).apply_format == old(self).apply_format,
    {
        self.decoder.try_format(format)
    }

    /// Ends the negotiation: applies the format and lets the decoder go on. The decoder is
    /// left as `apply_format` leaves it.
    pub fn finish(self)
        requires
            self.decoder.valid(),
            forall|decoder: &mut D, hint: &H|
                decoder.valid() ==> call_requires(self.apply_format, (decoder, hint)),
        ensures
            exists|decoder: &mut D|
                *decoder == *old(self.decoder) && *final(decoder) == *final(self.decoder)
                    && #[trigger] call_ensures(self.apply_format, (decoder, &self.format_hint), ()),
    {
        (self.apply_format)(self.decoder, &self.format_hint)
    }
}

} // verus!
