//! The VP8 decoder: it parses the stream, negotiates the output format, submits the frames to
//! the backend, keeps the reference frames, and hands the decoded frames out in display order.

use crate::decoder::stateless::private;
use crate::decoder::stateless::DecodeError;
use crate::decoder::stateless::StatelessBackendError;
use crate::decoder::stateless::StatelessDecoderFormatNegotiator;
use crate::decoder::stateless::StatelessVideoDecoder;
use crate::decoder::DecoderEvent;
use crate::decoders::vp8::backends::Vp8Display;
use crate::decoders::vp8::backends::NUM_SURFACES;
use crate::decoders::vp8::parser::Frame;
use crate::decoders::vp8::parser::Header;
use crate::decoders::vp8::parser::Parser;
use crate::decoders::BlockingMode;
use crate::utils::vaapi::count_named;
use crate::utils::vaapi::lemma_count_named_is_positive;
use crate::utils::vaapi::lemma_count_named_of_later_frame;
use crate::utils::vaapi::lemma_count_named_push;
use crate::utils::vaapi::not_parsed_message;
use crate::utils::vaapi::DecodedHandle;
use crate::utils::vaapi::Display;
use crate::utils::vaapi::Image;
use crate::utils::vaapi::VaapiBackend;
use crate::DecodedFormat;
use crate::Resolution;
use vstd::prelude::*;
use vstd::slice::slice_to_vec;

verus! {

/// Where the decoder is in the negotiation of the output format.
pub enum NegotiationStatus<P> {
    /// Still waiting for a key frame.
    NonNegotiated,
    /// Saw a key frame. The format can be negotiated until the next call to `decode`. The
    /// key frame is kept: its timestamp, header and data, and the parser as it was after
    /// the frame.
    Possible { key_frame: (u64, Header, Vec<u8>, P) },
    /// Negotiated. The format is fixed until a key frame changes the resolution.
    Negotiated,
}

impl<P> Default for NegotiationStatus<P> {
    fn default() -> (status: Self)
        ensures
            status is NonNegotiated,
    {
        NegotiationStatus::NonNegotiated
    }
}

/// The three reference frames of VP8.
pub struct References {
    /// The last reference.
    pub last: Option<DecodedHandle>,
    /// The golden reference.
    pub golden: Option<DecodedHandle>,
    /// The alternate reference.
    pub alt: Option<DecodedHandle>,
}

/// The header asks for no copy between references that VP8 does not know. A key frame and
/// a reference that the frame itself becomes ask for no copy at all.
pub open spec fn copy_flags_are_valid(header: Header) -> bool {
    header.key_frame || ((header.refresh_alternate_frame || header.copy_buffer_to_alternate <= 2)
        && (header.refresh_golden_frame || header.copy_buffer_to_golden <= 2))
}

/// Whether the header asks for no copy between references that VP8 does not know.
pub fn has_valid_copy_flags(header: &Header) -> (valid: bool)
    ensures
        valid == copy_flags_are_valid(*header),
{
    header.key_frame() || ((header.refresh_alternate_frame() || header.copy_buffer_to_alternate()
        <= 2) && (header.refresh_golden_frame() || header.copy_buffer_to_golden() <= 2))
}

/// What a reference is after a copy from `source`: the source, if there is one.
pub open spec fn copied_from(source: Option<DecodedHandle>, reference: Option<DecodedHandle>)
    -> Option<DecodedHandle> {
    if source is Some {
        source
    } else {
        reference
    }
}

/// The references after the frame `decoded` with the header `header` has been decoded.
///
/// A key frame becomes all three. Else the alternate reference is settled first, then the
/// golden one, which may copy the alternate reference as it has just been settled, then the
/// last one.
pub open spec fn spec_update_references(
    header: Header,
    decoded: DecodedHandle,
    before: References,
) -> References
    recommends
        copy_flags_are_valid(header),
{
    if header.key_frame {
        References { last: Some(decoded), golden: Some(decoded), alt: Some(decoded) }
    } else {
        let alt = if header.refresh_alternate_frame {
            Some(decoded)
        } else if header.copy_buffer_to_alternate == 1 {
            copied_from(before.last, before.alt)
        } else if header.copy_buffer_to_alternate == 2 {
            copied_from(before.golden, before.alt)
        } else {
            before.alt
        };
        let golden = if header.refresh_golden_frame {
            Some(decoded)
        } else if header.copy_buffer_to_golden == 1 {
            copied_from(before.last, before.golden)
        } else if header.copy_buffer_to_golden == 2 {
            copied_from(alt, before.golden)
        } else {
            before.golden
        };
        let last = if header.refresh_last {
            Some(decoded)
        } else {
            before.last
        };
        References { last, golden, alt }
    }
}

/// The reference `reference` is a handle to the frame `id`.
pub open spec fn refers_to(reference: Option<DecodedHandle>, id: u64) -> bool {
    reference matches Some(handle) && handle.inner == id
}

/// The number of handles to the frame `id` that the reference `reference` holds: one or
/// none.
pub open spec fn handles_of(reference: Option<DecodedHandle>, id: u64) -> int {
    if refers_to(reference, id) {
        1
    } else {
        0
    }
}

/// The number of handles to the frame `id` that `references` hold.
pub open spec fn handles_of_references(references: References, id: u64) -> int {
    handles_of(references.last, id) + handles_of(references.golden, id) + handles_of(
        references.alt,
        id,
    )
}

/// The frame `id` is of the backend, and a handle beyond those of `references` and of the
/// frames that are waited for refers to it: the frame lasts whatever becomes of those.
/// So does a frame whose count of handles has reached the largest number.
pub open spec fn outlasts<D: Display>(
    backend: &VaapiBackend<Header, D>,
    references: References,
    id: u64,
) -> bool {
    backend.handles@.contains_key(id) && (backend.handles@[id].holders == u64::MAX
        || backend.handles@[id].holders > handles_of_references(references, id) + count_named(
        backend.pending_jobs@,
        id,
    ))
}

/// What a reference that changes from `before` to `after` leaves of the frame `id`, from
/// the backend `old_backend` to the backend `new_backend`. If a handle beyond the
/// reference's own referred to the frame, the frame is still there with its picture as it
/// was, and as many handles beyond the reference's own refer to it as did. A count of
/// handles that reaches the largest number stays there, and says nothing any more.
pub open spec fn reference_leaves<D: Display>(
    new_backend: &VaapiBackend<Header, D>,
    old_backend: &VaapiBackend<Header, D>,
    after: Option<DecodedHandle>,
    before: Option<DecodedHandle>,
    id: u64,
) -> bool {
    old_backend.handles@.contains_key(id) && old_backend.handles@[id].holders > handles_of(
        before,
        id,
    ) ==> {
        &&& new_backend.frame_stays(old_backend, id)
        &&& new_backend.handles@[id].holders == u64::MAX || new_backend.handles@[id].holders
            - handles_of(after, id) >= old_backend.handles@[id].holders - handles_of(before, id)
        &&& old_backend.handles@[id].holders == u64::MAX ==> new_backend.handles@[id].holders
            == u64::MAX
        &&& old_backend.handles@[id].holders + 1 < u64::MAX ==> new_backend.handles@[id].holders
            - handles_of(after, id) == old_backend.handles@[id].holders - handles_of(before, id)
    }
}

/// What references that change from `before` to `after` leave of the frame `id`, from the
/// backend `old_backend` to the backend `new_backend`. If a handle beyond those of the
/// references referred to the frame, the frame is still there with its picture as it was,
/// and as many handles beyond those of the references refer to it as did, unless the
/// count of handles comes near the largest number.
pub open spec fn references_leave<D: Display>(
    new_backend: &VaapiBackend<Header, D>,
    old_backend: &VaapiBackend<Header, D>,
    after: References,
    before: References,
    id: u64,
) -> bool {
    outlasts(old_backend, before, id) ==> {
        &&& new_backend.frame_stays(old_backend, id)
        &&& outlasts(new_backend, after, id)
        &&& old_backend.handles@[id].holders + 3 < u64::MAX ==> new_backend.handles@[id].holders
            - handles_of_references(after, id) == old_backend.handles@[id].holders
            - handles_of_references(before, id)
    }
}

/// A frame that a handle beyond those of the references refers to lasts while the three
/// references change one after the other, and such a handle still refers to it then.
pub proof fn lemma_references_leave_frames<D: Display>(
    before_all: &VaapiBackend<Header, D>,
    with_alt: &VaapiBackend<Header, D>,
    with_golden: &VaapiBackend<Header, D>,
    after_all: &VaapiBackend<Header, D>,
    before: References,
    after: References,
)
    requires
        forall|id: u64| #[trigger]
            reference_leaves(with_alt, before_all, after.alt, before.alt, id),
        forall|id: u64| #[trigger]
            reference_leaves(with_golden, with_alt, after.golden, before.golden, id),
        forall|id: u64| #[trigger]
            reference_leaves(after_all, with_golden, after.last, before.last, id),
        after_all.pending_jobs@ == before_all.pending_jobs@,
    ensures
        forall|id: u64| #[trigger] references_leave(after_all, before_all, after, before, id),
{
    assert forall|id: u64| #[trigger]
        references_leave(after_all, before_all, after, before, id) by {
        assert(reference_leaves(with_alt, before_all, after.alt, before.alt, id));
        assert(reference_leaves(with_golden, with_alt, after.golden, before.golden, id));
        assert(reference_leaves(after_all, with_golden, after.last, before.last, id));
    }
}

/// A frame that lasts, lasts through `poll`, from `waited` to `settled`, and when the
/// handles `polled` that it returned are given back, which leaves `released`: the handles
/// that are given back are no longer waited for.
pub proof fn lemma_outlasts_poll<D: Display>(
    released: &VaapiBackend<Header, D>,
    settled: &VaapiBackend<Header, D>,
    waited: &VaapiBackend<Header, D>,
    polled: Seq<DecodedHandle>,
    references: References,
    id: u64,
)
    requires
        settled.readied_from(waited),
        count_named(polled, id) + count_named(settled.pending_jobs@, id) == count_named(
            waited.pending_jobs@,
            id,
        ),
        released.keeps_frame(settled, polled, id),
        released.pending_jobs@ == settled.pending_jobs@,
        outlasts(waited, references, id),
    ensures
        outlasts(released, references, id),
        waited.handles@[id].state is Ready ==> released.handles@[id].state is Ready,
{
    assert(settled.handles@.contains_key(id));
}

/// The frame `id` is ready, or is among the frames that are waited for.
pub open spec fn is_tracked<D: Display>(backend: &VaapiBackend<Header, D>, id: u64) -> bool {
    (backend.handles@.contains_key(id) && backend.handles@[id].state is Ready) || VaapiBackend::<
        Header,
        D,
    >::names_frame(backend.pending_jobs@, id)
}

/// A frame that lasts, and that is ready or waited for, is so after `poll`, from `waited`
/// to `settled`, and when the handles `polled` that it returned have been given back,
/// which leaves `released`. After a `poll` that waits the frame is ready.
pub proof fn lemma_tracked_through_poll<D: Display>(
    released: &VaapiBackend<Header, D>,
    settled: &VaapiBackend<Header, D>,
    waited: &VaapiBackend<Header, D>,
    blocking_mode: BlockingMode,
    polled: Seq<DecodedHandle>,
    references: References,
    id: u64,
)
    requires
        settled.polled(waited, blocking_mode, polled),
        count_named(polled, id) + count_named(settled.pending_jobs@, id) == count_named(
            waited.pending_jobs@,
            id,
        ),
        released.keeps_frame(settled, polled, id),
        released.pending_jobs@ == settled.pending_jobs@,
        outlasts(waited, references, id),
        is_tracked(waited, id),
    ensures
        outlasts(released, references, id),
        is_tracked(released, id),
        blocking_mode is Blocking ==> released.handles@[id].state is Ready,
{
    lemma_outlasts_poll(released, settled, waited, polled, references, id);
    lemma_count_named_is_positive(waited.pending_jobs@, id);
    lemma_count_named_is_positive(settled.pending_jobs@, id);
    lemma_count_named_is_positive(polled, id);
    if !(waited.handles@[id].state is Ready) {
        if count_named(polled, id) > 0 {
            let i = choose|i: int| 0 <= i < polled.len() && (#[trigger] polled[i]).inner == id;
            assert(settled.spec_is_ready(&polled[i]));
        }
    }
}

/// What the backend keeps while handles are made and given back: the stream and its
/// format, the negotiation, the frames that are waited for, and the identifiers. No
/// surface is taken from the pool.
pub open spec fn backend_keeps_stream<D: Display>(
    after: &VaapiBackend<Header, D>,
    before: &VaapiBackend<Header, D>,
) -> bool {
    &&& after.negotiation_status == before.negotiation_status
    &&& after.pending_jobs@ == before.pending_jobs@
    &&& after.next_id == before.next_id
    &&& after.same_stream(before)
    &&& after.spec_num_resources_left() >= before.spec_num_resources_left()
}

/// The event is a frame that is ready to be shown.
pub open spec fn is_frame_ready(event: Option<DecoderEvent<Header, DecodedHandle>>) -> bool {
    event matches Some(DecoderEvent::FrameReady(_))
}

/// The result is a failure to parse the input, or a breach of a rule of VP8.
pub open spec fn is_decoder_error(decoded: Result<Vec<DecodedHandle>, DecodeError>) -> bool {
    decoded matches Err(DecodeError::DecoderError(_))
}

/// The result is a refusal to negotiate the format.
pub open spec fn is_failed_negotiation(changed: Result<(), StatelessBackendError>) -> bool {
    changed matches Err(StatelessBackendError::NegotiationFailed(_))
}

/// The result is a refusal of the input for want of a free surface.
pub open spec fn is_check_events(decoded: Result<Vec<DecodedHandle>, DecodeError>) -> bool {
    decoded matches Err(DecodeError::CheckEvents)
}

/// The resolution that the header `header` gives.
pub open spec fn resolution_of(header: Header) -> Resolution {
    Resolution { width: header.width as u32, height: header.height as u32 }
}

/// Whether a frame with the header `header` has another resolution than `coded_resolution`.
pub fn negotiation_possible(coded_resolution: Resolution, header: &Header) -> (possible: bool)
    ensures
        possible == (header.width as u32 != coded_resolution.width || header.height as u32
            != coded_resolution.height),
{
    let width = header.width() as u32;
    let height = header.height() as u32;
    width != coded_resolution.width || height != coded_resolution.height
}

/// The frame `handle` once it has been given the place `order` in the display order.
pub open spec fn with_display_order(handle: DecodedHandle, order: u64) -> DecodedHandle {
    DecodedHandle { display_order: Some(order), ..handle }
}

/// The queue `queue` after the frame `handle` of a frame with the header `header`: the
/// frame is added with the place `order` if it is shown.
pub open spec fn queue_after(
    queue: Seq<DecodedHandle>,
    header: Header,
    handle: DecodedHandle,
    order: u64,
) -> Seq<DecodedHandle> {
    if header.show_frame {
        queue.push(with_display_order(handle, order))
    } else {
        queue
    }
}

/// The display order counter after a frame with the header `header`.
pub open spec fn order_after(order: u64, header: Header) -> int {
    if header.show_frame {
        order + 1
    } else {
        order as int
    }
}

/// The frames of `queue` hold the places from `first` on in the display order, one after
/// the other.
pub open spec fn in_display_order(queue: Seq<DecodedHandle>, first: int) -> bool {
    forall|i: int|
        0 <= i < queue.len() ==> (#[trigger] queue[i]).display_order == Some((first + i) as u64)
            && first + i <= u64::MAX
}

/// The parser state that a frame is submitted with: the state that was kept with the
/// frame, if one was, else the decoder's own.
pub fn submission_parser<'a, P>(queued: &'a Option<P>, own: &'a P) -> (chosen: &'a P)
    ensures
        *chosen == (match *queued {
            Some(kept) => kept,
            None => *own,
        }),
{
    match queued {
        Some(kept) => kept,
        None => own,
    }
}

/// The VP8 decoder.
///
/// `P` is the parser and `D` the driver. The decoder is the one owner of its frames: a
/// handle that it has handed out is given back to it with `release`.
pub struct Decoder<P: Parser + Clone, D: Vp8Display<P>> {
    /// A parser to extract bitstream data and build frame data in turn.
    pub parser: P,
    /// Whether the decoder should block on decode operations.
    pub blocking_mode: BlockingMode,
    /// The backend used for hardware acceleration.
    pub backend: VaapiBackend<Header, D>,
    /// Keeps track of whether the decoded format has been negotiated with the backend.
    pub negotiation_status: NegotiationStatus<P>,
    /// The current resolution.
    pub coded_resolution: Resolution,
    /// A queue with the pictures that are to be sent to the client, in display order.
    pub ready_queue: Vec<DecodedHandle>,
    /// A monotonically increasing counter used to tag pictures in display order.
    pub current_display_order: u64,
    /// The picture used as the last reference picture.
    pub last_picture: Option<DecodedHandle>,
    /// The picture used as the golden reference picture.
    pub golden_ref_picture: Option<DecodedHandle>,
    /// The picture used as the alternate reference picture.
    pub alt_ref_picture: Option<DecodedHandle>,
}

impl<P: Parser + Clone, D: Vp8Display<P>> Decoder<P, D> {
    /// The place in the display order of the next frame to be handed out.
    pub open spec fn next_delivery(&self) -> int {
        self.current_display_order - self.ready_queue@.len()
    }

    /// The invariant of the decoder: that of its backend; the frames in the queue hold the
    /// places in the display order from the next one to be handed out up to the counter;
    /// the frame that is kept while the negotiation is possible is a key frame; and the
    /// handles that the decoder holds were made by its backend.
    pub open spec fn wf(&self) -> bool {
        &&& self.backend.wf()
        &&& self.ready_queue@.len() <= self.current_display_order
        &&& in_display_order(self.ready_queue@, self.next_delivery())
        &&& self.negotiation_status matches NegotiationStatus::Possible { key_frame }
            ==> key_frame.1.key_frame
        &&& forall|i: int|
            0 <= i < self.ready_queue@.len() ==> (#[trigger] self.ready_queue@[i]).inner
                < self.backend.next_id
        &&& self.last_picture matches Some(handle) ==> handle.inner < self.backend.next_id
        &&& self.golden_ref_picture matches Some(handle) ==> handle.inner < self.backend.next_id
        &&& self.alt_ref_picture matches Some(handle) ==> handle.inner < self.backend.next_id
    }

    /// The references.
    pub open spec fn references(&self) -> References {
        References {
            last: self.last_picture,
            golden: self.golden_ref_picture,
            alt: self.alt_ref_picture,
        }
    }

    /// Whether the format can be negotiated: a key frame has been seen and is kept.
    pub open spec fn spec_negotiation_possible(&self) -> bool {
        self.negotiation_status is Possible
    }

    /// The decoder holds the frames of its queue: each of them lasts (see `outlasts`), by
    /// the handle to it that is in the queue, and is ready or waited for, as a frame is
    /// that has been submitted. This is so for a new decoder, and the methods of the
    /// decoder keep it so, but for `release`, which keeps it so for a handle to a frame
    /// that is not in the queue (see `lemma_release_keeps_queue`). It is no more so once a
    /// handle has been given back more often than the decoder has handed it out.
    pub open spec fn holds_queue(&self) -> bool {
        forall|i: int|
            0 <= i < self.ready_queue@.len() ==> self.holds_frame(
                (#[trigger] self.ready_queue@[i]).inner,
            )
    }

    /// The frame `id` lasts, and is ready or waited for.
    pub open spec fn holds_frame(&self, id: u64) -> bool {
        outlasts(&self.backend, self.references(), id) && is_tracked(&self.backend, id)
    }

    /// Everything but the backend is as in `other`.
    pub open spec fn same_frames(&self, other: &Self) -> bool {
        &&& self.parser == other.parser
        &&& self.blocking_mode == other.blocking_mode
        &&& self.negotiation_status == other.negotiation_status
        &&& self.coded_resolution == other.coded_resolution
        &&& self.ready_queue@ == other.ready_queue@
        &&& self.current_display_order == other.current_display_order
        &&& self.references() == other.references()
    }

    /// Everything but the driver is as in `other`.
    pub open spec fn same_state(&self, other: &Self) -> bool {
        self.same_frames(other) && self.backend.same_state(&other.backend)
    }

    /// Whether a frame is submitted with a wait for the hardware: when the decoder is
    /// configured so, and always for the key frame that the negotiation was held for.
    pub open spec fn spec_blocks(&self) -> bool {
        self.blocking_mode is Blocking || self.negotiation_status is Possible
    }

    /// Creates a decoder over `backend`. It waits for a key frame.
    pub fn new(backend: VaapiBackend<Header, D>, blocking_mode: BlockingMode, parser: P)
        -> (decoder: Result<Self, DecodeError>)
        requires
            backend.wf(),
        ensures
            decoder matches Ok(decoder) && decoder.wf() && decoder.parser == parser
                && decoder.blocking_mode == blocking_mode && decoder.backend == backend
                && decoder.negotiation_status is NonNegotiated && decoder.coded_resolution == (
            Resolution { width: 0, height: 0 }) && decoder.ready_queue@.len() == 0
                && decoder.current_display_order == 0 && decoder.references() == (References {
                last: None,
                golden: None,
                alt: None,
            }) && decoder.holds_queue(),
    {
        Ok(
            Self {
                backend,
                blocking_mode,
                parser,
                negotiation_status: NegotiationStatus::NonNegotiated,
                last_picture: None,
                golden_ref_picture: None,
                alt_ref_picture: None,
                coded_resolution: Resolution { width: 0, height: 0 },
                ready_queue: Vec::new(),
                current_display_order: 0,
            },
        )
    }

    /// Makes `handle` the reference `reference`, and gives back the handle that was.
    fn put_reference(
        backend: &mut VaapiBackend<Header, D>,
        reference: &mut Option<DecodedHandle>,
        handle: DecodedHandle,
    )
        requires
            old(backend).wf(),
        ensures
            final(backend).wf(),
            backend_keeps_stream(final(backend), old(backend)),
            *final(reference) == Some(handle),
            forall|id: u64|
                !refers_to(*old(reference), id) ==> #[trigger] final(backend).frame_stays(
                    old(backend),
                    id,
                ),
            forall|id: u64|
                old(backend).handles@.contains_key(id) && old(backend).handles@[id].holders
                    > handles_of(*old(reference), id) ==> {
                    &&& #[trigger] final(backend).frame_stays(old(backend), id)
                    &&& final(backend).handles@[id].holders + handles_of(*old(reference), id)
                        >= old(backend).handles@[id].holders
                    &&& old(backend).handles@[id].holders == u64::MAX
                        ==> final(backend).handles@[id].holders == u64::MAX
                    &&& old(backend).handles@[id].holders < u64::MAX
                        ==> final(backend).handles@[id].holders + handles_of(
                        *old(reference),
                        id,
                    ) == old(backend).handles@[id].holders
                },
    {
        let mut slot = Some(handle);
        std::mem::swap(reference, &mut slot);
        if let Some(previous) = slot {
            backend.release_handle(previous);
        }
    }

    /// Replaces the reference `reference` with one more handle to the frame of `handle`.
    fn replace_reference(
        backend: &mut VaapiBackend<Header, D>,
        reference: &mut Option<DecodedHandle>,
        handle: &DecodedHandle,
    )
        requires
            old(backend).wf(),
        ensures
            final(backend).wf(),
            backend_keeps_stream(final(backend), old(backend)),
            *final(reference) == Some(*handle),
            forall|id: u64|
                !refers_to(*old(reference), id) ==> #[trigger] final(backend).frame_stays(
                    old(backend),
                    id,
                ),
            forall|id: u64| #[trigger]
                reference_leaves(
                    final(backend),
                    old(backend),
                    *final(reference),
                    *old(reference),
                    id,
                ),
    {
        let copy = backend.clone_handle(handle);
        let ghost cloned = *backend;
        Self::put_reference(backend, reference, copy);
        proof {
            assert forall|id: u64| #[trigger]
                reference_leaves(backend, old(backend), *reference, *old(reference), id) by {
                if old(backend).handles@.contains_key(id) && old(backend).handles@[id].holders
                    > handles_of(*old(reference), id) {
                    assert(cloned.frame_stays(old(backend), id));
                    assert(backend.frame_stays(&cloned, id));
                }
            }
            assert forall|id: u64|
                !refers_to(*old(reference), id) implies #[trigger] backend.frame_stays(
                old(backend),
                id,
            ) by {
                assert(cloned.frame_stays(old(backend), id));
                assert(backend.frame_stays(&cloned, id));
            }
        }
    }

    /// Replaces the reference `reference` with one more handle to the frame of `source`, if
    /// there is one.
    fn copy_reference(
        backend: &mut VaapiBackend<Header, D>,
        reference: &mut Option<DecodedHandle>,
        source: &Option<DecodedHandle>,
    )
        requires
            old(backend).wf(),
        ensures
            final(backend).wf(),
            backend_keeps_stream(final(backend), old(backend)),
            *final(reference) == copied_from(*source, *old(reference)),
            forall|id: u64|
                !refers_to(*old(reference), id) ==> #[trigger] final(backend).frame_stays(
                    old(backend),
                    id,
                ),
            forall|id: u64| #[trigger]
                reference_leaves(
                    final(backend),
                    old(backend),
                    *final(reference),
                    *old(reference),
                    id,
                ),
    {
        if let Some(handle) = source {
            Self::replace_reference(backend, reference, handle);
        } else {
            assert forall|id: u64| #[trigger] backend.frame_stays(old(backend), id) by {}
        }
    }

    /// Updates the references after the frame of `decoded_handle` has been decoded, as
    /// `spec_update_references` says. A reference that is copied shares the frame of its
    /// source: no picture is copied.
    ///
    /// Fails with `DecoderError` if the header asks for a copy that VP8 does not know. The
    /// references and the backend are unchanged then.
    pub fn update_references(
        backend: &mut VaapiBackend<Header, D>,
        header: &Header,
        decoded_handle: &DecodedHandle,
        last_picture: &mut Option<DecodedHandle>,
        golden_ref_picture: &mut Option<DecodedHandle>,
        alt_ref_picture: &mut Option<DecodedHandle>,
    ) -> (updated: Result<(), DecodeError>)
        requires
            old(backend).wf(),
        ensures
            final(backend).wf(),
            backend_keeps_stream(final(backend), old(backend)),
            copy_flags_are_valid(*header) ==> updated is Ok && (References {
                last: *final(last_picture),
                golden: *final(golden_ref_picture),
                alt: *final(alt_ref_picture),
            }) == spec_update_references(
                *header,
                *decoded_handle,
                References {
                    last: *old(last_picture),
                    golden: *old(golden_ref_picture),
                    alt: *old(alt_ref_picture),
                },
            ),
            !copy_flags_are_valid(*header) ==> {
                &&& updated matches Err(DecodeError::DecoderError(_))
                &&& *final(last_picture) == *old(last_picture)
                &&& *final(golden_ref_picture) == *old(golden_ref_picture)
                &&& *final(alt_ref_picture) == *old(alt_ref_picture)
                &&& final(backend).same_state(old(backend))
            },
            forall|id: u64|
                !refers_to(*old(last_picture), id) && !refers_to(*old(golden_ref_picture), id)
                    && !refers_to(*old(alt_ref_picture), id)
                    ==> #[trigger] final(backend).frame_stays(old(backend), id),
            forall|id: u64| #[trigger]
                references_leave(
                    final(backend),
                    old(backend),
                    (References {
                        last: *final(last_picture),
                        golden: *final(golden_ref_picture),
                        alt: *final(alt_ref_picture),
                    }),
                    (References {
                        last: *old(last_picture),
                        golden: *old(golden_ref_picture),
                        alt: *old(alt_ref_picture),
                    }),
                    id,
                ),
    {
        if !has_valid_copy_flags(header) {
            assert forall|id: u64| #[trigger] backend.frame_stays(old(backend), id) by {}
            return Err(DecodeError::DecoderError("invalid copy buffer flag".to_string()));
        }
        if header.key_frame() || header.refresh_alternate_frame() {
            Self::replace_reference(backend, alt_ref_picture, decoded_handle);
        } else if header.copy_buffer_to_alternate() == 1 {
            Self::copy_reference(backend, alt_ref_picture, last_picture);
        } else if header.copy_buffer_to_alternate() == 2 {
            Self::copy_reference(backend, alt_ref_picture, golden_ref_picture);
        } else {
            assert forall|id: u64| #[trigger] backend.frame_stays(old(backend), id) by {}
        }
        let ghost with_alt = *backend;
        if header.key_frame() || header.refresh_golden_frame() {
            Self::replace_reference(backend, golden_ref_picture, decoded_handle);
        } else if header.copy_buffer_to_golden() == 1 {
            Self::copy_reference(backend, golden_ref_picture, last_picture);
        } else if header.copy_buffer_to_golden() == 2 {
            Self::copy_reference(backend, golden_ref_picture, alt_ref_picture);
        } else {
            assert forall|id: u64| #[trigger] backend.frame_stays(&with_alt, id) by {}
        }
        let ghost with_golden = *backend;
        if header.key_frame() || header.refresh_last() {
            Self::replace_reference(backend, last_picture, decoded_handle);
        } else {
            assert forall|id: u64| #[trigger] backend.frame_stays(&with_golden, id) by {}
        }
        proof {
            assert forall|id: u64|
                !refers_to(*old(last_picture), id) && !refers_to(*old(golden_ref_picture), id)
                    && !refers_to(*old(alt_ref_picture), id) implies #[trigger] backend.frame_stays(
                old(backend),
                id,
            ) by {
                assert(with_alt.frame_stays(old(backend), id));
                assert(with_golden.frame_stays(&with_alt, id));
                assert(backend.frame_stays(&with_golden, id));
            }
            lemma_references_leave_frames(
                old(backend),
                &with_alt,
                &with_golden,
                backend,
                References {
                    last: *old(last_picture),
                    golden: *old(golden_ref_picture),
                    alt: *old(alt_ref_picture),
                },
                References {
                    last: *last_picture,
                    golden: *golden_ref_picture,
                    alt: *alt_ref_picture,
                },
            );
        }
        Ok(())
    }

    /// Waits for the first frame of the queue, if there is one. Nothing is waited for, and
    /// nothing changes, if the queue is empty or the frame is ready already.
    ///
    /// Fails with `BackendError` if the driver fails.
    pub fn block_on_one(&mut self) -> (waited: Result<(), DecodeError>)
        requires
            old(self).wf(),
        ensures
            final(self).wf(),
            final(self).same_frames(old(self)),
            final(self).backend.readied_from(&old(self).backend),
            final(self).backend.pending_jobs@ == old(self).backend.pending_jobs@,
            old(self).ready_queue@.len() == 0 || old(self).backend.spec_is_ready(
                &old(self).ready_queue@[0],
            ) ==> waited is Ok && final(self).backend.same_state(&old(self).backend),
            old(self).ready_queue@.len() > 0 && !old(self).backend.handles@.contains_key(
                old(self).ready_queue@[0].inner,
            ) ==> waited is Err,
            waited is Ok && old(self).ready_queue@.len() > 0
                ==> final(self).backend.spec_is_ready(&old(self).ready_queue@[0]),
            waited matches Err(error) ==> error matches DecodeError::BackendError(
                StatelessBackendError::Other(_),
            ),
    {
        if self.ready_queue.len() > 0 {
            return match self.backend.block_on_handle(&self.ready_queue[0]) {
                Ok(()) => Ok(()),
                Err(error) => Err(DecodeError::from(error)),
            };
        }
        Ok(())
    }

    /// Takes from the front of the queue the frames that are ready, up to the first one
    /// that is not, and returns them in their order.
    pub fn get_ready_frames(&mut self) -> (frames: Vec<DecodedHandle>)
        requires
            old(self).wf(),
        ensures
            final(self).wf(),
            frames@ + final(self).ready_queue@ == old(self).ready_queue@,
            forall|i: int|
                0 <= i < frames@.len()
                    ==> final(self).backend.spec_is_ready(#[trigger] &frames@[i]),
            final(self).front_is_not_ready(),
            in_display_order(frames@, old(self).next_delivery()),
            final(self).next_delivery() == old(self).next_delivery() + frames@.len(),
            final(self).parser == old(self).parser,
            final(self).blocking_mode == old(self).blocking_mode,
            final(self).negotiation_status == old(self).negotiation_status,
            final(self).coded_resolution == old(self).coded_resolution,
            final(self).current_display_order == old(self).current_display_order,
            final(self).references() == old(self).references(),
            final(self).backend.readied_from(&old(self).backend),
            final(self).backend.pending_jobs@ == old(self).backend.pending_jobs@,
    {
        let mut num_ready: usize = 0;
        let mut blocked = false;
        while num_ready < self.ready_queue.len() && !blocked
            invariant
                old(self).wf(),
                self.wf(),
                self.same_frames(old(self)),
                self.backend.readied_from(&old(self).backend),
                self.backend.pending_jobs@ == old(self).backend.pending_jobs@,
                num_ready <= self.ready_queue@.len(),
                forall|i: int|
                    0 <= i < num_ready ==> self.backend.spec_is_ready(
                        #[trigger] &self.ready_queue@[i],
                    ),
                blocked ==> num_ready < self.ready_queue@.len() && !self.backend.spec_is_ready(
                    &self.ready_queue@[num_ready as int],
                ),
            decreases self.ready_queue@.len() - num_ready + (if blocked { 0int } else { 1int }),
        {
            let ghost before = self.backend;
            let ready = self.backend.handle_is_ready(&self.ready_queue[num_ready]);
            proof {
                self.backend.lemma_readied_from_is_transitive(&before, &old(self).backend);
                assert forall|i: int| 0 <= i < num_ready implies self.backend.spec_is_ready(
                    #[trigger] &self.ready_queue@[i],
                ) by {
                    self.backend.lemma_ready_is_kept(&before, &self.ready_queue@[i]);
                }
            }
            if ready {
                num_ready += 1;
            } else {
                blocked = true;
            }
        }
        let ghost queue = self.ready_queue@;
        let mut retain = self.ready_queue.split_off(num_ready);
        std::mem::swap(&mut self.ready_queue, &mut retain);
        let ready = retain;
        proof {
            assert(ready@ + self.ready_queue@ =~= queue);
            assert forall|i: int| 0 <= i < ready@.len() implies self.backend.spec_is_ready(
                #[trigger] &ready@[i],
            ) by {
                assert(ready@[i] == queue[i]);
            }
            assert forall|i: int| 0 <= i < ready@.len() implies (#[trigger] ready@[i]).display_order
                == Some((old(self).next_delivery() + i) as u64) && old(self).next_delivery() + i
                <= u64::MAX by {
                assert(ready@[i] == queue[i]);
            }
            assert forall|i: int| 0 <= i < self.ready_queue@.len() implies (
            #[trigger] self.ready_queue@[i]).display_order == Some(
                (self.next_delivery() + i) as u64,
            ) && self.next_delivery() + i <= u64::MAX by {
                assert(self.ready_queue@[i] == queue[num_ready + i]);
            }
            if self.ready_queue@.len() > 0 {
                assert(self.ready_queue@[0] == queue[num_ready as int]);
            }
        }
        ready
    }

    /// The handle that the backend makes for the next frame that is submitted with
    /// `timestamp`.
    pub open spec fn next_handle(&self, timestamp: u64) -> DecodedHandle {
        self.handle_after(0, timestamp)
    }

    /// The handle that the backend makes for a frame that is submitted with `timestamp`
    /// after `submitted` other frames.
    pub open spec fn handle_after(&self, submitted: int, timestamp: u64) -> DecodedHandle {
        DecodedHandle {
            inner: (self.backend.next_id + submitted) as u64,
            timestamp,
            display_resolution: match self.backend.spec_display_resolution() {
                Some(resolution) => resolution,
                None => Resolution { width: 0, height: 0 },
            },
            display_order: None,
        }
    }

    /// What the change from `before` to `self` leaves of the frame `id`: if a handle beyond
    /// those of the references referred to the frame, the frame is still there with its
    /// picture as it was, and a handle beyond those of the references still refers to it.
    pub open spec fn leaves_frame(&self, before: &Self, id: u64) -> bool {
        references_leave(
            &self.backend,
            &before.backend,
            self.references(),
            before.references(),
            id,
        )
    }

    /// The number of handles to the frame that was made for a frame with the header
    /// `header`, once it has been taken in, from `before` to `self`: the handle in the
    /// queue if the frame is shown, the handle of the frames that are waited for unless
    /// the frame was submitted with a wait, and those of the references.
    pub open spec fn handles_to_new_frame(&self, before: &Self, header: Header) -> int {
        handles_of_references(self.references(), before.backend.next_id) + (if header.show_frame {
            1int
        } else {
            0int
        }) + (if before.spec_blocks() {
            0int
        } else {
            1int
        })
    }

    /// The frame that was made for a frame with the header `header` has as many handles as
    /// refer to it, and if none does it has ended: the handle to a frame that is not shown
    /// has been given back.
    pub open spec fn counts_new_frame(&self, before: &Self, header: Header) -> bool {
        let id = before.backend.next_id;
        if self.handles_to_new_frame(before, header) == 0 {
            !self.backend.handles@.contains_key(id)
        } else {
            self.backend.handles@.contains_key(id) && self.backend.handles@[id].holders
                == self.handles_to_new_frame(before, header)
        }
    }

    /// A frame with the header `header` can be taken in: its copy flags are valid, and a
    /// place in the display order is left for it if it is shown.
    pub open spec fn accepts(&self, header: Header) -> bool {
        copy_flags_are_valid(header) && !(header.show_frame && self.current_display_order
            == u64::MAX)
    }

    /// The stream, its format and the total of its resources are as in `other`.
    pub open spec fn same_stream(&self, other: &Self) -> bool {
        self.backend.same_stream(&other.backend)
    }

    /// Handles a single frame: submits it to the backend, updates the references, and puts
    /// the frame into the queue with the next place in the display order if it is shown. A
    /// frame that is not shown is kept by the references only.
    ///
    /// The driver reads the parameters of the frame from `queued_parser_state` if that is
    /// given, else from the decoder's parser. The frame is submitted with a wait if the
    /// decoder blocks or if the negotiation is possible; else it is submitted without, and
    /// joins the frames that the backend waits for.
    ///
    /// The handle to a frame that is not shown is given back, so that the frame ends, and
    /// its surface is free again, once no reference refers to it (see `counts_new_frame`).
    ///
    /// Fails with `DecoderError` if the frame cannot be taken in (see `accepts`), with
    /// `CheckEvents` if no surface is free, and with `BackendError` if the backend fails
    /// otherwise. The queue, the display order and the references are unchanged on failure,
    /// and with `DecoderError` and `CheckEvents` the backend is too; with `BackendError` it
    /// is as `VaapiBackend::gave_up` says.
    pub fn handle_frame(&mut self, frame: Frame, timestamp: u64, queued_parser_state: Option<P>)
        -> (handled: Result<(), DecodeError>)
        requires
            old(self).wf(),
        ensures
            final(self).wf(),
            final(self).parser == old(self).parser,
            final(self).blocking_mode == old(self).blocking_mode,
            final(self).negotiation_status == old(self).negotiation_status,
            final(self).coded_resolution == old(self).coded_resolution,
            final(self).same_stream(old(self)),
            !old(self).accepts(frame.header) ==> handled matches Err(DecodeError::DecoderError(_)),
            old(self).accepts(frame.header) && old(self).backend.metadata_state is Parsed
                && old(self).backend.spec_num_resources_left() == 0
                ==> handled matches Err(DecodeError::CheckEvents),
            old(self).accepts(frame.header) && old(self).backend.metadata_state is Unparsed
                ==> (handled matches Err(
                DecodeError::BackendError(StatelessBackendError::Other(cause)),
            ) && cause@ == not_parsed_message()),
            handled matches Err(error) ==> {
                &&& final(self).same_frames(old(self))
                &&& error is DecoderError || error is CheckEvents ==> final(self).same_state(
                    old(self),
                )
                &&& error is DecoderError ==> !old(self).accepts(frame.header)
                &&& error is CheckEvents ==> old(self).backend.metadata_state is Parsed
                    && old(self).backend.spec_num_resources_left() == 0
                &&& error matches DecodeError::BackendError(cause) ==> cause is Other
                    && final(self).backend.gave_up(&old(self).backend)
                &&& final(self).backend.pending_jobs@ == old(self).backend.pending_jobs@
            },
            handled is Ok ==> {
                &&& old(self).accepts(frame.header)
                &&& old(self).backend.metadata_state is Parsed
                &&& final(self).references() == spec_update_references(
                    frame.header,
                    old(self).next_handle(timestamp),
                    old(self).references(),
                )
                &&& final(self).ready_queue@ == queue_after(
                    old(self).ready_queue@,
                    frame.header,
                    old(self).next_handle(timestamp),
                    old(self).current_display_order,
                )
                &&& final(self).current_display_order == order_after(
                    old(self).current_display_order,
                    frame.header,
                )
                &&& final(self).backend.negotiation_status is Negotiated
                &&& final(self).backend.next_id == old(self).backend.next_id + 1
                &&& frame.header.show_frame && old(self).spec_blocks()
                    ==> final(self).backend.spec_is_ready(&old(self).next_handle(timestamp))
                &&& final(self).backend.pending_jobs@ == (if old(self).spec_blocks() {
                    old(self).backend.pending_jobs@
                } else {
                    old(self).backend.pending_jobs@.push(old(self).next_handle(timestamp))
                })
                &&& final(self).backend.spec_num_resources_left() + 1
                    >= old(self).backend.spec_num_resources_left()
                &&& forall|id: u64| #[trigger] final(self).leaves_frame(old(self), id)
                &&& final(self).counts_new_frame(old(self), frame.header)
                &&& old(self).holds_queue() ==> final(self).holds_queue()
                &&& frame.header.show_frame ==> outlasts(
                    &final(self).backend,
                    final(self).references(),
                    old(self).backend.next_id,
                )
            },
    {
        if !has_valid_copy_flags(&frame.header) {
            return Err(DecodeError::DecoderError("invalid copy buffer flag".to_string()));
        }
        let show_frame = frame.header.show_frame();
        if show_frame && self.current_display_order == u64::MAX {
            return Err(DecodeError::DecoderError("display order exhausted".to_string()));
        }
        let block = match (&self.blocking_mode, &self.negotiation_status) {
            (BlockingMode::Blocking, _) => BlockingMode::Blocking,
            (_, NegotiationStatus::Possible { .. }) => BlockingMode::Blocking,
            _ => BlockingMode::NonBlocking,
        };
        let parser = submission_parser(&queued_parser_state, &self.parser);
        let submitted = self.backend.submit_picture(
            &frame.header,
            self.last_picture.as_ref(),
            self.golden_ref_picture.as_ref(),
            self.alt_ref_picture.as_ref(),
            frame.bitstream,
            parser,
            timestamp,
            block,
        );
        let mut decoded_handle = match submitted {
            Ok(decoded_handle) => decoded_handle,
            Err(error) => {
                return Err(DecodeError::from(error));
            },
        };
        let ghost submitted = self.backend;
        // The copy flags have been checked, so the update cannot fail.
        let updated = Self::update_references(
            &mut self.backend,
            &frame.header,
            &decoded_handle,
            &mut self.last_picture,
            &mut self.golden_ref_picture,
            &mut self.alt_ref_picture,
        );
        if let Err(error) = updated {
            self.backend.release_handle(decoded_handle);
            return Err(error);
        }
        assert(self.backend.frame_stays(&submitted, decoded_handle.inner));
        let ghost updated = self.backend;
        proof {
            assert forall|id: u64|
                outlasts(&old(self).backend, old(self).references(), id) implies outlasts(
                &submitted,
                old(self).references(),
                id,
            ) && submitted.frame_stays(&old(self).backend, id) by {
                assert(submitted.frame_stays(&old(self).backend, id));
                lemma_count_named_push(old(self).backend.pending_jobs@, decoded_handle, id);
            }
            lemma_count_named_of_later_frame(
                old(self).backend.pending_jobs@,
                decoded_handle.inner,
            );
            lemma_count_named_push(
                old(self).backend.pending_jobs@,
                decoded_handle,
                decoded_handle.inner,
            );
            assert(outlasts(&submitted, old(self).references(), decoded_handle.inner));
            assert forall|id: u64|
                outlasts(&old(self).backend, old(self).references(), id) implies outlasts(
                &updated,
                self.references(),
                id,
            ) && updated.frame_stays(&old(self).backend, id) by {
                assert(submitted.frame_stays(&old(self).backend, id));
                assert(outlasts(&submitted, old(self).references(), id));
                assert(references_leave(
                    &updated,
                    &submitted,
                    self.references(),
                    old(self).references(),
                    id,
                ));
            }
            assert(references_leave(
                &updated,
                &submitted,
                self.references(),
                old(self).references(),
                decoded_handle.inner,
            ));
        }
        if show_frame {
            let order = self.current_display_order;
            decoded_handle.set_display_order(order);
            self.current_display_order = order + 1;
            self.ready_queue.push(decoded_handle);
            proof {
                let queue = self.ready_queue@;
                assert forall|i: int|
                    0 <= i < queue.len() implies (#[trigger] queue[i]).display_order
                    == Some((self.next_delivery() + i) as u64) && self.next_delivery() + i
                    <= u64::MAX by {
                    if i < queue.len() - 1 {
                        assert(queue[i] == old(self).ready_queue@[i]);
                    }
                }
            }
        } else {
            self.backend.release_handle(decoded_handle);
        }
        proof {
            assert forall|id: u64| #[trigger] self.leaves_frame(old(self), id) by {
                if outlasts(&old(self).backend, old(self).references(), id) {
                    assert(updated.frame_stays(&old(self).backend, id));
                    assert(id != decoded_handle.inner);
                    assert(self.backend.handles@[id] == updated.handles@[id]);
                    assert(submitted.frame_stays(&old(self).backend, id));
                    assert(references_leave(
                        &updated,
                        &submitted,
                        self.references(),
                        old(self).references(),
                        id,
                    ));
                }
            }
            if old(self).holds_queue() {
                assert forall|i: int| 0 <= i < self.ready_queue@.len() implies self.holds_frame(
                    (#[trigger] self.ready_queue@[i]).inner,
                ) by {
                    let id = self.ready_queue@[i].inner;
                    if i < old(self).ready_queue@.len() {
                        assert(self.ready_queue@[i] == old(self).ready_queue@[i]);
                        assert(self.leaves_frame(old(self), id));
                        if VaapiBackend::<Header, D>::names_frame(
                            old(self).backend.pending_jobs@,
                            id,
                        ) {
                            let waiting = old(self).backend.pending_jobs@;
                            let k = choose|k: int|
                                0 <= k < waiting.len() && (#[trigger] waiting[k]).inner == id;
                            assert(self.backend.pending_jobs@[k].inner == id);
                        }
                    } else if !old(self).spec_blocks() {
                        let waiting = self.backend.pending_jobs@;
                        assert(waiting[waiting.len() - 1].inner == id);
                    }
                }
            }
        }
        Ok(())
    }

    /// Whether the format can be negotiated: a key frame has been seen, and the next call
    /// to `decode` has not been made.
    pub fn negotiation_possible(&self) -> (possible: bool)
        ensures
            possible == self.spec_negotiation_possible(),
    {
        match &self.negotiation_status {
            NegotiationStatus::Possible { .. } => true,
            _ => false,
        }
    }

    /// The number of surfaces that the next frames can take: none is known before a key
    /// frame has been seen, and while the negotiation is possible one of the free surfaces
    /// is kept for the key frame.
    pub open spec fn resources_left(&self) -> Option<usize> {
        match self.negotiation_status {
            NegotiationStatus::NonNegotiated => None,
            NegotiationStatus::Possible { .. } => Some(
                if self.backend.spec_num_resources_left() == 0 {
                    0usize
                } else {
                    (self.backend.spec_num_resources_left() - 1) as usize
                },
            ),
            NegotiationStatus::Negotiated => Some(self.backend.spec_num_resources_left() as usize),
        }
    }

    /// The number of surfaces that the next frames can take, and 0 before a key frame has
    /// been seen.
    pub open spec fn resources_left_or_zero(&self) -> usize {
        match self.resources_left() {
            Some(left) => left,
            None => 0,
        }
    }

    /// The number of surfaces that the next frames can take: none is known before a key
    /// frame has been seen, and while the negotiation is possible one of the free surfaces
    /// is kept for the key frame.
    pub fn num_resources_left(&self) -> (left: Option<usize>)
        requires
            self.wf(),
        ensures
            left == self.resources_left(),
            left matches Some(left) ==> left <= self.backend.spec_num_resources_total(),
    {
        let left_in_the_backend = self.backend.num_resources_left();
        match &self.negotiation_status {
            NegotiationStatus::NonNegotiated => None,
            NegotiationStatus::Possible { .. } => if left_in_the_backend == 0 {
                Some(0)
            } else {
                Some(left_in_the_backend - 1)
            },
            NegotiationStatus::Negotiated => Some(left_in_the_backend),
        }
    }

    /// The number of surfaces that were allocated for the stream.
    pub fn num_resources_total(&self) -> (total: usize)
        ensures
            total == self.backend.spec_num_resources_total(),
    {
        self.backend.num_resources_total()
    }

    /// The coded resolution of the stream, once a key frame has been seen.
    pub fn coded_resolution(&self) -> (resolution: Option<Resolution>)
        ensures
            resolution == self.backend.spec_coded_resolution(),
    {
        self.backend.coded_resolution()
    }

    /// The layout that frames are handed out in, once a key frame has been seen.
    pub fn format(&self) -> (format: Option<DecodedFormat>)
        ensures
            format == self.backend.spec_format(),
    {
        self.backend.format()
    }

    /// Looks at the frames that were submitted without waiting and returns handles to those
    /// that are ready now, as `VaapiBackend::polled` says. With `Blocking` every such frame
    /// is waited for.
    ///
    /// The queue is not touched: the frames are still handed out by `decode` and `flush`,
    /// in their order.
    ///
    /// Fails with `BackendError` if the driver fails on a wait. Without `Blocking`, and if
    /// every frame is ready already, nothing is waited for and the call succeeds.
    pub fn poll(&mut self, blocking_mode: BlockingMode) -> (ready: Result<
        Vec<DecodedHandle>,
        DecodeError,
    >)
        requires
            old(self).wf(),
        ensures
            final(self).wf(),
            final(self).same_frames(old(self)),
            final(self).same_stream(old(self)),
            ready matches Ok(frames) ==> final(self).backend.polled(
                &old(self).backend,
                blocking_mode,
                frames@,
            ),
            ready is Ok && old(self).holds_queue() ==> final(self).holds_queue(),
            blocking_mode is NonBlocking || old(self).backend.waits_for_nothing() ==> ready is Ok,
            ready matches Err(error) ==> error matches DecodeError::BackendError(
                StatelessBackendError::Other(_),
            ),
    {
        match self.backend.poll(blocking_mode) {
            Ok(handles) => {
                proof {
                    if old(self).holds_queue() {
                        assert forall|i: int|
                            0 <= i < self.ready_queue@.len() implies self.holds_frame(
                            (#[trigger] self.ready_queue@[i]).inner,
                        ) by {
                            lemma_tracked_through_poll(
                                &self.backend,
                                &self.backend,
                                &old(self).backend,
                                blocking_mode,
                                handles@,
                                self.references(),
                                self.ready_queue@[i].inner,
                            );
                        }
                    }
                }
                Ok(handles)
            },
            Err(error) => Err(DecodeError::from(error)),
        }
    }

    /// Gives a frame back that the decoder has handed out, as `VaapiBackend::released`
    /// says: the frame has one holder less, and its surface is free again once no reference
    /// and no other handle refers to the frame.
    pub fn release(&mut self, handle: DecodedHandle)
        requires
            old(self).wf(),
        ensures
            final(self).wf(),
            final(self).same_frames(old(self)),
            final(self).same_stream(old(self)),
            final(self).backend.released(&old(self).backend, handle.inner),
    {
        self.backend.release_handle(handle);
    }

    /// A frame with the header `header` starts a sequence: it is a key frame, and either
    /// none has been seen yet or it changes the resolution of the stream that is decoded.
    pub open spec fn starts_sequence(&self, header: Header) -> bool {
        header.key_frame && (self.negotiation_status is NonNegotiated || (self.negotiation_status
            is Negotiated && resolution_of(header) != self.coded_resolution))
    }

    /// A frame with the header `header` is passed over: no key frame has been seen yet,
    /// and it is none.
    pub open spec fn passes_over(&self, header: Header) -> bool {
        !header.key_frame && self.negotiation_status is NonNegotiated
    }

    /// The frames `frames` are handed out of the state `before`, which leaves `self`: they
    /// take the next places in the display order, one after the other, and each of them is
    /// ready.
    pub open spec fn delivers(&self, before: &Self, frames: Seq<DecodedHandle>) -> bool {
        &&& in_display_order(frames, before.next_delivery())
        &&& self.next_delivery() == before.next_delivery() + frames.len()
        &&& forall|i: int|
            0 <= i < frames.len() ==> self.backend.spec_is_ready(#[trigger] &frames[i])
    }

    /// Every frame at the front of the queue that is ready has been handed out: the frame
    /// that is now at the front, if there is one, is not ready.
    pub open spec fn front_is_not_ready(&self) -> bool {
        self.ready_queue@.len() > 0 ==> !self.backend.spec_is_ready(&self.ready_queue@[0])
    }

    /// The queue, the display order and the references of `self` are those of `before`,
    /// with `frames` taken from the front of the queue.
    pub open spec fn keeps_frames(&self, before: &Self, frames: Seq<DecodedHandle>) -> bool {
        &&& frames + self.ready_queue@ == before.ready_queue@
        &&& self.current_display_order == before.current_display_order
        &&& self.references() == before.references()
    }

    /// The queue, the display order and the references of `self` are those of `before`
    /// after a frame with the header `header` and the handle `handle`, with `frames` taken
    /// from the front of the queue.
    pub open spec fn takes_frame(
        &self,
        before: &Self,
        header: Header,
        handle: DecodedHandle,
        frames: Seq<DecodedHandle>,
    ) -> bool {
        &&& frames + self.ready_queue@ == queue_after(
            before.ready_queue@,
            header,
            handle,
            before.current_display_order,
        )
        &&& self.current_display_order == order_after(before.current_display_order, header)
        &&& self.references() == spec_update_references(header, handle, before.references())
    }

    /// The queue, the display order and the references of `self` are those of `before`
    /// after two frames, the first with the header `first_header` and the handle `first`,
    /// with `frames` taken from the front of the queue.
    pub open spec fn takes_two_frames(
        &self,
        before: &Self,
        first_header: Header,
        first: DecodedHandle,
        header: Header,
        handle: DecodedHandle,
        frames: Seq<DecodedHandle>,
    ) -> bool {
        let order = order_after(before.current_display_order, first_header);
        &&& frames + self.ready_queue@ == queue_after(
            queue_after(before.ready_queue@, first_header, first, before.current_display_order),
            header,
            handle,
            order as u64,
        )
        &&& self.current_display_order == order_after(order as u64, header)
        &&& self.references() == spec_update_references(
            header,
            handle,
            spec_update_references(first_header, first, before.references()),
        )
    }

    /// The frame of `handle`, which has the header `header`, is ready if it is shown.
    pub open spec fn shows_ready(&self, header: Header, handle: DecodedHandle) -> bool {
        header.show_frame ==> self.backend.spec_is_ready(&handle)
    }

    /// The number of surfaces that decoding the next frame takes: one for the frame, and one
    /// more for the key frame that is kept while the negotiation is possible.
    pub open spec fn surfaces_needed(&self) -> nat {
        if self.negotiation_status is Possible {
            2
        } else {
            1
        }
    }

    /// Fewer surfaces are free than decoding the next frame takes.
    pub open spec fn lacks_surfaces(&self) -> bool {
        self.backend.metadata_state is Parsed && self.backend.spec_num_resources_left()
            < self.surfaces_needed()
    }

    /// The input was refused for want of a free surface, from the state `before` to the
    /// state `self`: nothing has changed, the negotiation included.
    pub open spec fn refused(&self, before: &Self) -> bool {
        &&& self.negotiation_status == before.negotiation_status
        &&& self.coded_resolution == before.coded_resolution
        &&& self.keeps_frames(before, Seq::empty())
        &&& self.backend.same_state(&before.backend)
    }

    /// If no surface is left after the call, the frame at the front of the queue has been
    /// waited for, so that the client gets a frame to give back: the first of the frames
    /// that were in the queue once the input had been submitted, if there is one, is ready
    /// and is the first of `frames`.
    ///
    /// This is so if the decoder held its queue in `before` (see `holds_queue`). If it did
    /// not, the frame at the front may have ended instead.
    pub open spec fn admits(&self, before: &Self, frames: Seq<DecodedHandle>) -> bool {
        let queue = frames + self.ready_queue@;
        self.backend.spec_num_resources_left() == 0 && queue.len() > 0 ==> (frames.len() > 0
            && self.backend.spec_is_ready(&frames[0])) || (!before.holds_queue()
            && !self.backend.handles@.contains_key(queue[0].inner))
    }

    /// What `decode` does with a parsed frame that it can take in, from the state `before`
    /// to the state `self`, with the result `decoded`.
    ///
    /// A frame that is passed over changes nothing. A frame that starts a sequence is kept,
    /// with its timestamp and a copy of the parser as it is after the frame. Every frame
    /// that the backend waited for is waited for first; then the backend is set up for the
    /// stream, with the default format, the resolution of the frame and a new pool of
    /// surfaces, all of them free, and the negotiation becomes possible. No frame is made
    /// and nothing is handed out. Any other frame is
    /// refused with `CheckEvents`, and nothing changes, exactly if fewer surfaces are free
    /// than it takes. Else it is decoded, after the key frame that was kept if the
    /// negotiation was possible, and the format is negotiated then. The frames that are
    /// handed out are the ready frames at the front of the queue: the first frame that is
    /// left, if any, is not ready. The key frame that was kept is waited for, and so is
    /// every frame of a decoder that blocks: such a frame is ready after the call if it is
    /// shown. If the frame took the last surface, the frame at the front of the queue is
    /// waited for (see `admits`). A decoder that blocks waits for every frame that is
    /// waited for. A decoder that held its queue holds it after a call that succeeds, and
    /// if it blocks it hands out every frame of the queue: the queue is empty then.
    pub open spec fn decodes(
        &self,
        before: &Self,
        timestamp: u64,
        frame: Frame,
        decoded: Result<Vec<DecodedHandle>, DecodeError>,
    ) -> bool {
        let header = frame.header;
        &&& self.blocking_mode == before.blocking_mode
        &&& decoded matches Ok(frames) ==> self.delivers(before, frames@)
        &&& decoded matches Err(error) ==> error is CheckEvents || error is BackendError
        &&& decoded is Ok && before.holds_queue() ==> self.holds_queue()
        &&& is_check_events(decoded) ==> self.refused(before)
        &&& is_check_events(decoded) <==> !before.passes_over(header) && !before.starts_sequence(
            header,
        ) && before.lacks_surfaces()
        &&& if before.passes_over(header) {
            &&& decoded matches Ok(frames)
            &&& frames@.len() == 0
            &&& self.negotiation_status == before.negotiation_status
            &&& self.coded_resolution == before.coded_resolution
            &&& self.keeps_frames(before, Seq::empty())
            &&& self.backend.same_state(&before.backend)
        } else if before.starts_sequence(header) {
            &&& self.keeps_frames(before, Seq::empty())
            &&& match decoded {
                Ok(frames) => {
                    &&& frames@.len() == 0
                    &&& self.negotiation_status matches NegotiationStatus::Possible { key_frame }
                    &&& key_frame.0 == timestamp
                    &&& key_frame.1 == header
                    &&& key_frame.2@ == frame.bitstream@
                    &&& self.coded_resolution == resolution_of(header)
                    &&& self.backend.spec_coded_resolution() == Some(resolution_of(header))
                    &&& cloned(self.parser, key_frame.3)
                    &&& self.backend.spec_display_resolution() == Some(resolution_of(header))
                    &&& self.backend.spec_format() == Some(DecodedFormat::NV12)
                    &&& self.backend.spec_num_resources_total() == NUM_SURFACES
                    &&& self.backend.spec_num_resources_left() == NUM_SURFACES
                    &&& self.backend.pending_jobs@.len() == 0
                    &&& self.backend.has_settled(&before.backend)
                    &&& self.backend.next_id == before.backend.next_id + 1
                    &&& forall|id: u64| #[trigger]
                        self.backend.handles@.contains_key(id)
                            ==> before.backend.handles@.contains_key(id)
                },
                Err(_) => {
                    &&& self.negotiation_status is NonNegotiated
                    &&& self.coded_resolution == before.coded_resolution
                },
            }
        } else {
            &&& self.coded_resolution == before.coded_resolution
            &&& self.same_stream(before)
            &&& decoded matches Ok(frames) ==> self.front_is_not_ready() && self.admits(
                before,
                frames@,
            )
            &&& decoded is Ok ==> self.backend.next_id == before.backend.next_id
                + before.surfaces_needed()
            &&& decoded is Ok && before.holds_queue() && before.blocking_mode is Blocking
                ==> self.ready_queue@.len() == 0
            &&& decoded is Ok && before.blocking_mode is Blocking ==> self.backend.has_settled(
                &before.backend,
            ) && self.backend.pending_jobs@.len() == 0
            &&& match before.negotiation_status {
                NegotiationStatus::Possible { key_frame } => {
                    let first = before.handle_after(0, key_frame.0);
                    let second = before.handle_after(1, timestamp);
                    match decoded {
                        Ok(frames) => {
                            &&& self.negotiation_status is Negotiated
                            &&& self.takes_two_frames(
                                before,
                                key_frame.1,
                                first,
                                header,
                                second,
                                frames@,
                            )
                            &&& self.shows_ready(key_frame.1, first)
                            &&& before.blocking_mode is Blocking ==> self.shows_ready(
                                header,
                                second,
                            )
                        },
                        Err(_) => {
                            ||| self.negotiation_status == before.negotiation_status
                                && self.keeps_frames(before, Seq::empty())
                            ||| self.negotiation_status is Negotiated && self.takes_frame(
                                before,
                                key_frame.1,
                                first,
                                Seq::empty(),
                            )
                            ||| self.negotiation_status is Negotiated && self.takes_two_frames(
                                before,
                                key_frame.1,
                                first,
                                header,
                                second,
                                Seq::empty(),
                            )
                        },
                    }
                },
                _ => {
                    &&& self.negotiation_status is Negotiated
                    &&& match decoded {
                        Ok(frames) => {
                            &&& self.takes_frame(
                                before,
                                header,
                                before.next_handle(timestamp),
                                frames@,
                            )
                            &&& before.blocking_mode is Blocking ==> self.shows_ready(
                                header,
                                before.next_handle(timestamp),
                            )
                        },
                        Err(_) => self.keeps_frames(before, Seq::empty()) || self.takes_frame(
                            before,
                            header,
                            before.next_handle(timestamp),
                            Seq::empty(),
                        ),
                    }
                },
            }
        }
    }

    /// The frame of `handle` is ready if it was ready in `before` and was not among the
    /// frames that `before` waited for.
    pub open spec fn keeps_ready(&self, before: &Self, handle: DecodedHandle) -> bool {
        before.backend.spec_is_ready(&handle) && !VaapiBackend::<Header, D>::names_frame(
            before.backend.pending_jobs@,
            handle.inner,
        ) ==> self.backend.spec_is_ready(&handle)
    }

    /// A frame that lasts in `before` lasts in `self`, and is ready if it was in `before`.
    pub open spec fn still_outlasts(&self, before: &Self, id: u64) -> bool {
        outlasts(&before.backend, before.references(), id) ==> outlasts(
            &self.backend,
            self.references(),
            id,
        ) && (before.backend.handles@[id].state is Ready
            ==> self.backend.handles@[id].state is Ready)
    }

    /// A frame that the decoder held in `before` (see `holds_frame`) is held in `self`.
    pub open spec fn still_holds(&self, before: &Self, id: u64) -> bool {
        before.holds_frame(id) ==> self.holds_frame(id)
    }

    /// Hands out the frames at the front of the queue that are ready. If no surface is
    /// left, the frame at the front is waited for first, so that the client gets a frame to
    /// give back. Then the frames that the backend waits for are looked at, with a wait if
    /// the decoder blocks.
    ///
    /// Fails with `BackendError` if the driver fails on a wait; the queue is as it was then.
    fn hand_out_frames(&mut self) -> (handed_out: Result<Vec<DecodedHandle>, DecodeError>)
        requires
            old(self).wf(),
        ensures
            final(self).wf(),
            final(self).parser == old(self).parser,
            final(self).blocking_mode == old(self).blocking_mode,
            final(self).negotiation_status == old(self).negotiation_status,
            final(self).coded_resolution == old(self).coded_resolution,
            final(self).same_stream(old(self)),
            final(self).backend.negotiation_status == old(self).backend.negotiation_status,
            final(self).backend.next_id == old(self).backend.next_id,
            handed_out matches Ok(frames) ==> {
                &&& final(self).delivers(old(self), frames@)
                &&& final(self).keeps_frames(old(self), frames@)
                &&& final(self).front_is_not_ready()
                &&& final(self).admits(old(self), frames@)
                &&& old(self).holds_queue() ==> final(self).holds_queue()
                &&& old(self).holds_queue() && old(self).blocking_mode is Blocking
                    ==> final(self).ready_queue@.len() == 0
                &&& old(self).blocking_mode is Blocking ==> final(self).backend.has_settled(
                    &old(self).backend,
                ) && final(self).backend.pending_jobs@.len() == 0
                &&& forall|handle: DecodedHandle| #[trigger]
                    final(self).keeps_ready(old(self), handle)
                &&& forall|id: u64| #[trigger] final(self).still_outlasts(old(self), id)
                &&& forall|id: u64| #[trigger] final(self).still_holds(old(self), id)
            },
            handed_out matches Err(error) ==> error is BackendError && final(self).keeps_frames(
                old(self),
                Seq::empty(),
            ),
    {
        if self.backend.num_resources_left() == 0 {
            if let Err(error) = self.block_on_one() {
                assert(Seq::<DecodedHandle>::empty() + self.ready_queue@ =~= self.ready_queue@);
                return Err(error);
            }
        }
        let ghost waited = *self;
        let polled = match self.backend.poll(self.blocking_mode) {
            Ok(polled) => polled,
            Err(error) => {
                assert(Seq::<DecodedHandle>::empty() + self.ready_queue@ =~= self.ready_queue@);
                return Err(DecodeError::from(error));
            },
        };
        let ghost settled = *self;
        self.backend.release_all(polled);
        let ghost released = *self;
        let frames = self.get_ready_frames();
        proof {
            assert forall|handle: DecodedHandle| #[trigger]
                self.keeps_ready(old(self), handle) by {
                if old(self).backend.spec_is_ready(&handle) && !VaapiBackend::<
                    Header,
                    D,
                >::names_frame(old(self).backend.pending_jobs@, handle.inner) {
                    waited.backend.lemma_ready_is_kept(&old(self).backend, &handle);
                    released.backend.lemma_ready_outlasts_poll(
                        &settled.backend,
                        &waited.backend,
                        self.blocking_mode,
                        polled@,
                        &handle,
                    );
                    self.backend.lemma_ready_is_kept(&released.backend, &handle);
                }
            }
            assert forall|id: u64| #[trigger] self.still_outlasts(old(self), id) by {
                if outlasts(&old(self).backend, old(self).references(), id) {
                    assert(outlasts(&waited.backend, old(self).references(), id));
                    lemma_outlasts_poll(
                        &released.backend,
                        &settled.backend,
                        &waited.backend,
                        polled@,
                        old(self).references(),
                        id,
                    );
                }
            }
            assert forall|id: u64| #[trigger] self.still_holds(old(self), id) by {
                if old(self).holds_frame(id) {
                    assert(outlasts(&waited.backend, old(self).references(), id));
                    lemma_tracked_through_poll(
                        &released.backend,
                        &settled.backend,
                        &waited.backend,
                        self.blocking_mode,
                        polled@,
                        old(self).references(),
                        id,
                    );
                    assert(self.still_outlasts(old(self), id));
                }
            }
            if old(self).holds_queue() {
                assert forall|i: int| 0 <= i < self.ready_queue@.len() implies self.holds_frame(
                    (#[trigger] self.ready_queue@[i]).inner,
                ) by {
                    let place = frames@.len() + i;
                    assert(self.ready_queue@[i] == (frames@ + self.ready_queue@)[place]);
                    assert(self.still_holds(old(self), old(self).ready_queue@[place].inner));
                }
                if self.blocking_mode is Blocking && self.ready_queue@.len() > 0 {
                    let front = self.ready_queue@[0];
                    assert(front == (frames@ + self.ready_queue@)[frames@.len() as int]);
                    lemma_tracked_through_poll(
                        &released.backend,
                        &settled.backend,
                        &waited.backend,
                        self.blocking_mode,
                        polled@,
                        old(self).references(),
                        front.inner,
                    );
                    self.backend.lemma_ready_is_kept(&released.backend, &front);
                }
            }
            if self.backend.spec_num_resources_left() == 0 && frames@.len() == 0
                && self.ready_queue@.len() > 0 {
                let front = self.ready_queue@[0];
                assert(frames@ + self.ready_queue@ =~= self.ready_queue@);
                assert(front == old(self).ready_queue@[0]);
                assert(self.still_outlasts(old(self), front.inner));
                assert(waited.backend.spec_is_ready(&front));
                if self.backend.handles@.contains_key(front.inner) {
                    settled.backend.lemma_ready_is_kept(&waited.backend, &front);
                    assert(released.backend.handles@.contains_key(front.inner));
                    assert(released.backend.spec_is_ready(&front));
                    self.backend.lemma_ready_is_kept(&released.backend, &front);
                }
            }
        }
        Ok(frames)
    }

    /// Two frames can be taken in one after the other: the copy flags of `header` are
    /// valid, and two places in the display order are left.
    pub open spec fn accepts_after_key_frame(&self, header: Header) -> bool {
        copy_flags_are_valid(header) && self.current_display_order < u64::MAX - 1
    }

    /// Decodes the parsed frame `frame` with the decoder's parser, as `decodes` says.
    fn process_frame(&mut self, timestamp: u64, frame: Frame) -> (decoded: Result<
        Vec<DecodedHandle>,
        DecodeError,
    >)
        requires
            old(self).wf(),
            old(self).accepts_after_key_frame(frame.header),
        ensures
            final(self).wf(),
            final(self).parser == old(self).parser,
            final(self).decodes(old(self), timestamp, frame, decoded),
    {
        let key_frame = frame.header.key_frame();
        let mut starts = false;
        match &self.negotiation_status {
            NegotiationStatus::NonNegotiated => {
                if !key_frame {
                    return Ok(Vec::new());
                }
                starts = true;
            },
            NegotiationStatus::Negotiated => {
                starts = key_frame && negotiation_possible(self.coded_resolution, &frame.header);
            },
            NegotiationStatus::Possible { .. } => {},
        }
        if starts {
            self.negotiation_status = NegotiationStatus::NonNegotiated;
            let drained = match self.backend.poll(BlockingMode::Blocking) {
                Ok(drained) => drained,
                Err(error) => {
                    return Err(DecodeError::from(error));
                },
            };
            let ghost settled = self.backend;
            let ghost given_back = drained@;
            self.backend.release_all(drained);
            let ghost released = self.backend;
            if let Err(error) = self.backend.new_sequence(&frame.header) {
                return Err(DecodeError::from(error));
            }
            proof {
                if old(self).holds_queue() {
                    assert forall|i: int| 0 <= i < self.ready_queue@.len() implies self.holds_frame(
                    (#[trigger] self.ready_queue@[i]).inner,
                ) by {
                        lemma_tracked_through_poll(
                            &released,
                            &settled,
                            &old(self).backend,
                            BlockingMode::Blocking,
                            given_back,
                            self.references(),
                            self.ready_queue@[i].inner,
                        );
                    }
                }
            }
            self.coded_resolution =
            Resolution { width: frame.header.width() as u32, height: frame.header.height() as u32 };
            self.negotiation_status =
            NegotiationStatus::Possible {
                key_frame: (
                    timestamp,
                    frame.header,
                    slice_to_vec(frame.bitstream),
                    self.parser.clone(),
                ),
            };
            return Ok(Vec::new());
        }
        let queued = match &self.negotiation_status {
            NegotiationStatus::Possible { key_frame } => Some(
                (key_frame.0, key_frame.1, key_frame.2.clone(), key_frame.3.clone()),
            ),
            _ => None,
        };
        let ghost first = self.next_handle(0);
        if let Some((queued_timestamp, header, bitstream, parser)) = queued {
            // The key frame and the frame take a surface each. The input is refused before
            // the key frame is decoded, so that a refusal leaves the negotiation as it is.
            if self.backend.coded_resolution().is_some() && self.backend.num_resources_left() < 2 {
                assert(Seq::<DecodedHandle>::empty() + self.ready_queue@ =~= self.ready_queue@);
                return Err(DecodeError::CheckEvents);
            }
            let key_frame = Frame { bitstream: bitstream.as_slice(), header };
            if let Err(error) = self.handle_frame(key_frame, queued_timestamp, Some(parser)) {
                return Err(error);
            }
            self.negotiation_status = NegotiationStatus::Negotiated;
        }
        let ghost replayed = *self;
        let ghost second = self.next_handle(timestamp);
        if let Err(error) = self.handle_frame(frame, timestamp, None) {
            return Err(error);
        }
        let ghost submitted = *self;
        proof {
            assert(submitted.leaves_frame(&replayed, first.inner));
        }
        let frames = self.hand_out_frames()?;
        proof {
            assert(self.keeps_ready(&submitted, first));
            assert(self.keeps_ready(&submitted, second));
        }
        Ok(frames)
    }

    /// Decodes the frame `frame`, which `parser` has parsed and is left after. `parser`
    /// becomes the decoder's parser if the frame is decoded; on failure the decoder keeps
    /// its own, so that the same input can be submitted again.
    ///
    /// Fails with `DecoderError`, and changes nothing, if the copy flags of the frame are
    /// not valid or less than two places in the display order are left. Else the frame is
    /// decoded as `decodes` says, which fails with `CheckEvents` if no surface is free and
    /// with `BackendError` if the backend fails otherwise.
    pub fn decode_frame(&mut self, timestamp: u64, frame: Frame, parser: P) -> (decoded: Result<
        Vec<DecodedHandle>,
        DecodeError,
    >)
        requires
            old(self).wf(),
        ensures
            final(self).wf(),
            decoded is Ok ==> final(self).parser == parser,
            decoded is Err ==> final(self).parser == old(self).parser,
            if old(self).accepts_after_key_frame(frame.header) {
                final(self).decodes(old(self), timestamp, frame, decoded)
            } else {
                decoded matches Err(DecodeError::DecoderError(_)) && final(self).same_state(
                    old(self),
                )
            },
    {
        if !has_valid_copy_flags(&frame.header) {
            return Err(DecodeError::DecoderError("invalid copy buffer flag".to_string()));
        }
        if self.current_display_order >= u64::MAX - 1 {
            return Err(DecodeError::DecoderError("display order exhausted".to_string()));
        }
        let mut other = parser;
        std::mem::swap(&mut self.parser, &mut other);
        let decoded = self.process_frame(timestamp, frame);
        if decoded.is_err() {
            std::mem::swap(&mut self.parser, &mut other);
        }
        decoded
    }

    /// What `decode` makes of the decoder `before` and of the input `bitstream`, with the
    /// result `decoded`.
    ///
    /// The parser decides what the input holds. With `DecoderError` nothing has changed.
    /// Any other result is that of decoding a frame of this input that can be taken in, as
    /// `decodes` says. The frames that are handed out are ready and take the next places
    /// in the display order, and on failure the parser is as it was.
    pub open spec fn parses_and_decodes(
        &self,
        before: &Self,
        timestamp: u64,
        bitstream: Seq<u8>,
        decoded: Result<Vec<DecodedHandle>, DecodeError>,
    ) -> bool {
        &&& self.blocking_mode == before.blocking_mode
        &&& decoded is Err ==> self.parser == before.parser
        &&& is_decoder_error(decoded) ==> self.same_state(before)
        &&& decoded matches Ok(frames) ==> self.delivers(before, frames@)
        &&& !is_decoder_error(decoded) ==> exists|frame: Frame|
            frame.bitstream@ == bitstream && before.accepts_after_key_frame(frame.header)
                && #[trigger] self.decodes(before, timestamp, frame, decoded)
    }

    /// Parses `bitstream`, which holds one frame, and decodes the frame. Returns the frames
    /// that are ready to be shown, in display order: each of them is ready, and they take
    /// the places in the display order that follow the frames handed out before.
    ///
    /// Fails with `DecoderError`, and changes nothing, if the frame cannot be parsed or
    /// breaks a rule of VP8; with `CheckEvents` if no surface is free, in which case the
    /// client gives a frame back and submits the same input again; and with `BackendError`
    /// if the backend fails otherwise. On failure the parser is as it was before the call.
    pub fn decode(&mut self, timestamp: u64, bitstream: &[u8]) -> (decoded: Result<
        Vec<DecodedHandle>,
        DecodeError,
    >)
        requires
            old(self).wf(),
        ensures
            final(self).wf(),
            final(self).parses_and_decodes(old(self), timestamp, bitstream@, decoded),
    {
        let mut parser = self.parser.clone();
        match parser.parse_frame(bitstream) {
            Ok(frame) => {
                let frame = Frame { bitstream, header: frame.header };
                self.decode_frame(timestamp, frame, parser)
            },
            Err(cause) => Err(DecodeError::DecoderError(cause)),
        }
    }

    /// A key frame is kept that cannot be taken in (see `accepts`).
    pub open spec fn key_frame_is_refused(&self) -> bool {
        &&& self.negotiation_status matches NegotiationStatus::Possible { key_frame }
        &&& !self.accepts(key_frame.1)
    }

    /// A key frame is kept that can be taken in, and no surface is free for it.
    pub open spec fn key_frame_lacks_surface(&self) -> bool {
        &&& self.negotiation_status matches NegotiationStatus::Possible { key_frame }
        &&& self.accepts(key_frame.1)
        &&& self.backend.metadata_state is Parsed
        &&& self.backend.spec_num_resources_left() == 0
    }

    /// What `flush` makes of the decoder `before`, with the result `flushed`.
    ///
    /// The parser, the negotiation and the stream are as before. If a key frame was kept,
    /// it has been decoded, unless the call failed before that. On success every frame
    /// that the backend waited for has been waited for, so that it is ready unless it has
    /// ended, and the backend waits for none any more. The frames that are handed out are
    /// the ready frames at the front of the queue: the first frame that is left, if any,
    /// is not ready. The key frame is waited for too, so that it is ready after the call
    /// if it is shown. A decoder that held its queue hands out every frame of it in a call
    /// that succeeds: the queue is empty then.
    ///
    /// The call succeeds if no key frame is kept and every frame that was submitted is
    /// ready already; no frame is made then. It fails with `DecoderError`, and nothing
    /// changes, exactly if the key frame that is kept cannot be taken in, and with
    /// `CheckEvents`, and nothing changes, exactly if it can and no surface is free for it.
    pub open spec fn flushes(
        &self,
        before: &Self,
        flushed: Result<Vec<DecodedHandle>, DecodeError>,
    ) -> bool {
        &&& self.parser == before.parser
        &&& self.blocking_mode == before.blocking_mode
        &&& self.negotiation_status == before.negotiation_status
        &&& self.coded_resolution == before.coded_resolution
        &&& self.same_stream(before)
        &&& flushed matches Ok(frames) ==> self.delivers(before, frames@)
            && self.front_is_not_ready() && self.backend.pending_jobs@.len() == 0
        &&& flushed is Ok ==> self.backend.has_settled(&before.backend)
        &&& flushed is Ok && before.holds_queue() ==> self.holds_queue()
            && self.ready_queue@.len() == 0
        &&& !before.spec_negotiation_possible() && before.backend.waits_for_nothing()
            ==> flushed is Ok
        &&& is_check_events(flushed) <==> before.key_frame_lacks_surface()
        &&& is_check_events(flushed) ==> self.refused(before)
        &&& is_decoder_error(flushed) <==> before.key_frame_is_refused()
        &&& is_decoder_error(flushed) ==> self.same_state(before)
        &&& !before.spec_negotiation_possible() ==> self.backend.has_no_new_frame(&before.backend)
        &&& flushed is Ok && before.spec_negotiation_possible() ==> self.backend.next_id
            == before.backend.next_id + 1
        &&& match before.negotiation_status {
            NegotiationStatus::Possible { key_frame } => match flushed {
                Ok(frames) => {
                    &&& self.takes_frame(
                        before,
                        key_frame.1,
                        before.next_handle(key_frame.0),
                        frames@,
                    )
                    &&& self.shows_ready(key_frame.1, before.next_handle(key_frame.0))
                },
                Err(_) => self.keeps_frames(before, Seq::empty()) || self.takes_frame(
                    before,
                    key_frame.1,
                    before.next_handle(key_frame.0),
                    Seq::empty(),
                ),
            },
            _ => match flushed {
                Ok(frames) => self.keeps_frames(before, frames@),
                Err(error) => self.keeps_frames(before, Seq::empty()) && error is BackendError,
            },
        }
    }

    /// Finishes the decoding of what has been submitted. If a key frame is kept for the
    /// negotiation it is decoded, with the format as it is, so that a stream of one frame
    /// gives its frame. Every frame that was submitted is waited for, and the frames at the
    /// front of the queue that are ready are returned in display order.
    ///
    /// Fails with `CheckEvents` if no surface is free for the key frame, with
    /// `DecoderError` if no place in the display order is left for it, and with
    /// `BackendError` if the backend fails.
    pub fn flush(&mut self) -> (flushed: Result<Vec<DecodedHandle>, DecodeError>)
        requires
            old(self).wf(),
        ensures
            final(self).wf(),
            final(self).flushes(old(self), flushed),
    {
        let queued = match &self.negotiation_status {
            NegotiationStatus::Possible { key_frame } => Some(
                (key_frame.0, key_frame.1, key_frame.2.clone(), key_frame.3.clone()),
            ),
            _ => None,
        };
        if let Some((timestamp, header, bitstream, parser)) = queued {
            let key_frame = Frame { bitstream: bitstream.as_slice(), header };
            if let Err(error) = self.handle_frame(key_frame, timestamp, Some(parser)) {
                return Err(error);
            }
        }
        let ghost submitted = *self;
        let polled = match self.backend.poll(BlockingMode::Blocking) {
            Ok(polled) => polled,
            Err(error) => {
                return Err(DecodeError::from(error));
            },
        };
        let ghost settled = *self;
        self.backend.release_all(polled);
        let ghost released = *self;
        let frames = self.get_ready_frames();
        proof {
            if old(self).holds_queue() {
                assert forall|i: int| 0 <= i < self.ready_queue@.len() implies self.holds_frame(
                    (#[trigger] self.ready_queue@[i]).inner,
                ) by {
                    let place = frames@.len() + i;
                    assert(self.ready_queue@[i] == (frames@ + self.ready_queue@)[place]);
                    assert(submitted.ready_queue@[place] == self.ready_queue@[i]);
                    lemma_tracked_through_poll(
                        &released.backend,
                        &settled.backend,
                        &submitted.backend,
                        BlockingMode::Blocking,
                        polled@,
                        self.references(),
                        self.ready_queue@[i].inner,
                    );
                    self.backend.lemma_ready_is_kept(&released.backend, &self.ready_queue@[i]);
                }
                if self.ready_queue@.len() > 0 {
                    assert(self.holds_frame(self.ready_queue@[0].inner));
                    assert(self.backend.spec_is_ready(&self.ready_queue@[0]));
                }
            }
            if let NegotiationStatus::Possible { key_frame } = old(self).negotiation_status {
                let first = old(self).next_handle(key_frame.0);
                if key_frame.1.show_frame {
                    released.backend.lemma_ready_outlasts_poll(
                        &settled.backend,
                        &submitted.backend,
                        BlockingMode::Blocking,
                        polled@,
                        &first,
                    );
                    self.backend.lemma_ready_is_kept(&released.backend, &first);
                }
            }
        }
        Ok(frames)
    }

    /// What `next_event` makes of the decoder `before`, with the result `event`.
    ///
    /// Nothing changes but that the frame at the front of the queue may have been seen
    /// ready. If it is ready, it is taken from the queue and is the event. Else the event is
    /// the start of the sequence, with the header of the key frame that is kept, if the
    /// format can be negotiated, and there is no event if it cannot. A decoder that held
    /// its queue still holds it.
    pub open spec fn announces(
        &self,
        before: &Self,
        event: Option<DecoderEvent<Header, DecodedHandle>>,
    ) -> bool {
        &&& self.parser == before.parser
        &&& self.blocking_mode == before.blocking_mode
        &&& self.negotiation_status == before.negotiation_status
        &&& self.coded_resolution == before.coded_resolution
        &&& self.backend.readied_from(&before.backend)
        &&& match event {
            Some(DecoderEvent::FrameReady(handle)) => {
                &&& self.delivers(before, seq![handle])
                &&& self.keeps_frames(before, seq![handle])
            },
            Some(DecoderEvent::FormatChanged(header)) => {
                &&& before.negotiation_status matches NegotiationStatus::Possible { key_frame }
                &&& header == key_frame.1
                &&& self.keeps_frames(before, Seq::empty())
            },
            None => {
                &&& !before.spec_negotiation_possible()
                &&& self.keeps_frames(before, Seq::empty())
            },
        }
        &&& before.ready_queue@.len() > 0 && before.backend.spec_is_ready(&before.ready_queue@[0])
            ==> is_frame_ready(event)
        &&& !is_frame_ready(event) && self.ready_queue@.len() > 0 ==> !self.backend.spec_is_ready(
            &self.ready_queue@[0],
        )
        &&& before.holds_queue() ==> self.holds_queue()
    }

    /// Returns the next event, if there is one: the frame at the front of the queue if it
    /// is ready, else the start of a sequence if the format can be negotiated.
    pub fn next_event(&mut self) -> (event: Option<DecoderEvent<Header, DecodedHandle>>)
        requires
            old(self).wf(),
        ensures
            final(self).wf(),
            final(self).announces(old(self), event),
    {
        if self.ready_queue.len() > 0 {
            if self.backend.handle_is_ready(&self.ready_queue[0]) {
                let ghost queue = self.ready_queue@;
                let handle = self.ready_queue.remove(0);
                proof {
                    assert(seq![handle] + self.ready_queue@ =~= queue);
                    assert forall|i: int| 0 <= i < self.ready_queue@.len() implies (
                    #[trigger] self.ready_queue@[i]).display_order == Some(
                        (self.next_delivery() + i) as u64,
                    ) && self.next_delivery() + i <= u64::MAX by {
                        assert(self.ready_queue@[i] == queue[i + 1]);
                    }
                    assert(seq![handle][0] == queue[0]);
                }
                return Some(DecoderEvent::FrameReady(handle));
            }
        }
        assert(Seq::<DecodedHandle>::empty() + self.ready_queue@ =~= self.ready_queue@);
        match &self.negotiation_status {
            NegotiationStatus::Possible { key_frame } => Some(
                DecoderEvent::FormatChanged(key_frame.1),
            ),
            _ => None,
        }
    }

    /// Whether a format can be asked for: a key frame is kept, and the backend has not been
    /// handed a frame of its sequence.
    pub open spec fn spec_can_negotiate(&self) -> bool {
        self.negotiation_status is Possible && self.backend.negotiation_status is Possible
    }

    /// What `try_format` makes of the decoder `before`, with the result `changed`.
    ///
    /// The decoder itself is as before. On success a format could be asked for, the
    /// backend hands frames out in `format`, for the same stream and the same frames, and
    /// all of its surfaces are free, since they were allocated anew. On failure nothing has
    /// changed. The call fails with `NegotiationFailed` if no format can be asked for.
    pub open spec fn negotiates(
        &self,
        before: &Self,
        format: DecodedFormat,
        changed: Result<(), StatelessBackendError>,
    ) -> bool {
        &&& self.same_frames(before)
        &&& changed is Ok ==> {
            &&& before.spec_can_negotiate()
            &&& self.backend.negotiation_status == before.backend.negotiation_status
            &&& self.backend.spec_format() == Some(format)
            &&& self.backend.spec_coded_resolution() == before.backend.spec_coded_resolution()
            &&& self.backend.spec_display_resolution() == before.backend.spec_display_resolution()
            &&& self.backend.spec_num_resources_total()
                == before.backend.spec_num_resources_total()
            &&& self.backend.spec_num_resources_left() == self.backend.spec_num_resources_total()
            &&& self.backend.handles@ == before.backend.handles@
            &&& self.backend.pending_jobs@ == before.backend.pending_jobs@
        }
        &&& changed is Err ==> self.same_state(before)
        &&& !before.spec_can_negotiate() ==> is_failed_negotiation(changed)
        &&& before.holds_queue() ==> self.holds_queue()
    }

    /// Tries to have frames handed out in `format`. If it succeeds, every frame that is
    /// decoded from now on comes out in `format`, until the next sequence starts.
    ///
    /// Fails with `NegotiationFailed` unless a sequence has started and none of its frames
    /// has been decoded, or if the stream cannot be decoded into `format`; and where the
    /// backend fails. Nothing changes on failure.
    pub fn try_format(&mut self, format: DecodedFormat) -> (changed: Result<
        (),
        StatelessBackendError,
    >)
        requires
            old(self).wf(),
        ensures
            final(self).wf(),
            final(self).negotiates(old(self), format, changed),
    {
        if !self.negotiation_possible() {
            return Err(
                StatelessBackendError::NegotiationFailed(
                    "Negotiation is not possible at this stage".to_string(),
                ),
            );
        }
        self.backend.try_format(format)
    }

    /// What `apply_format` makes of the decoder `before`, for the stream that `header`
    /// starts.
    ///
    /// If the negotiation was possible, it has ended: the decoder decodes, with the
    /// resolution of `header`, and the negotiation of the backend has ended too. Else
    /// nothing has changed. Either way the format, the frames and the surfaces are as they
    /// were.
    pub open spec fn applies_format(&self, before: &Self, header: Header) -> bool {
        &&& self.backend == (if before.spec_negotiation_possible() {
            VaapiBackend {
                negotiation_status: if before.backend.negotiation_status is Possible {
                    crate::utils::vaapi::NegotiationStatus::Negotiated
                } else {
                    before.backend.negotiation_status
                },
                ..before.backend
            }
        } else {
            before.backend
        })
        &&& self.parser == before.parser
        &&& self.blocking_mode == before.blocking_mode
        &&& self.keeps_frames(before, Seq::empty())
        &&& if before.spec_negotiation_possible() {
            self.negotiation_status is Negotiated && self.coded_resolution == resolution_of(
                header,
            )
        } else {
            self.negotiation_status == before.negotiation_status && self.coded_resolution
                == before.coded_resolution
        }
        &&& before.holds_queue() ==> self.holds_queue()
    }

    /// Ends the negotiation for the stream that `header` starts: the format stays as it
    /// is, for the decoder and for its backend, and the decoder decodes. The key frame
    /// that was kept is let go, and the client submits it again.
    ///
    /// Nothing changes unless the negotiation is possible.
    pub fn apply_format(&mut self, header: &Header)
        requires
            old(self).wf(),
        ensures
            final(self).wf(),
            final(self).applies_format(old(self), *header),
    {
        assert(Seq::<DecodedHandle>::empty() + self.ready_queue@ =~= self.ready_queue@);
        let possible = self.negotiation_possible();
        if possible {
            self.backend.end_negotiation();
            self.coded_resolution =
            Resolution { width: header.width() as u32, height: header.height() as u32 };
            self.negotiation_status = NegotiationStatus::Negotiated;
        }
    }

    /// Whether the frame of `handle` is ready, without blocking. A frame that has been
    /// found ready stays so.
    pub fn handle_is_ready(&mut self, handle: &DecodedHandle) -> (ready: bool)
        requires
            old(self).wf(),
        ensures
            final(self).wf(),
            final(self).same_frames(old(self)),
            final(self).backend.readied_from(&old(self).backend),
            ready == final(self).backend.spec_is_ready(handle),
            old(self).backend.spec_is_ready(handle) ==> ready,
            old(self).holds_queue() ==> final(self).holds_queue(),
    {
        self.backend.handle_is_ready(handle)
    }

    /// Blocks until the frame of `handle` is ready.
    ///
    /// Fails with `Other` if the driver fails or the handle refers to no frame of the
    /// decoder.
    pub fn sync(&mut self, handle: &DecodedHandle) -> (synced: Result<(), StatelessBackendError>)
        requires
            old(self).wf(),
        ensures
            final(self).wf(),
            final(self).same_frames(old(self)),
            final(self).backend.readied_from(&old(self).backend),
            synced is Ok ==> final(self).backend.spec_is_ready(handle),
            old(self).backend.spec_is_ready(handle) ==> synced is Ok,
            synced matches Err(error) ==> error is Other,
            old(self).holds_queue() ==> final(self).holds_queue(),
    {
        self.backend.block_on_handle(handle)
    }

    /// Maps the frame of `handle` into memory, after waiting for it to be ready.
    ///
    /// Fails with `UnsupportedFormat` if the layout of the frame is neither NV12 nor I420,
    /// and with `Other` if the driver fails or the handle refers to no frame of the decoder.
    pub fn map(&mut self, handle: &DecodedHandle) -> (image: Result<Image, StatelessBackendError>)
        requires
            old(self).wf(),
        ensures
            final(self).wf(),
            final(self).same_frames(old(self)),
            final(self).backend.readied_from(&old(self).backend),
            image is Ok ==> final(self).backend.spec_is_ready(handle) && old(self).backend.maps(
                handle,
            ),
            image matches Err(error) ==> error is Other || error is UnsupportedFormat,
            !old(self).backend.handles@.contains_key(handle.inner) ==> image is Err,
            old(self).backend.spec_is_ready(handle) && !old(self).backend.maps(handle)
                ==> image matches Err(StatelessBackendError::UnsupportedFormat),
            old(self).holds_queue() ==> final(self).holds_queue(),
    {
        self.backend.image(handle)
    }

    /// Ends the negotiation without a change of format, as `apply_format` does for the
    /// header of the key frame that is kept: frames are handed out in the format that the
    /// backend chose, and the decoder decodes. Nothing changes unless the negotiation is
    /// possible.
    pub fn accept_format(&mut self)
        requires
            old(self).wf(),
        ensures
            final(self).wf(),
            final(self).same_stream(old(self)),
            final(self).backend.handles@ == old(self).backend.handles@,
            final(self).parser == old(self).parser,
            final(self).keeps_frames(old(self), Seq::empty()),
            old(self).spec_negotiation_possible() ==> final(self).negotiation_status is Negotiated,
            !old(self).spec_negotiation_possible()
                ==> final(self).negotiation_status == old(self).negotiation_status,
            old(self).holds_queue() ==> final(self).holds_queue(),
            match old(self).negotiation_status {
                NegotiationStatus::Possible { key_frame } => final(self).applies_format(
                    old(self),
                    key_frame.1,
                ),
                _ => final(self).same_state(old(self)),
            },
    {
        let header = match &self.negotiation_status {
            NegotiationStatus::Possible { key_frame } => key_frame.1,
            _ => {
                assert(Seq::<DecodedHandle>::empty() + self.ready_queue@ =~= self.ready_queue@);
                return ;
            },
        };
        let apply_format = |decoder: &mut Self, hint: &Header|
            requires
                old(decoder).wf(),
            ensures
                final(decoder).wf(),
                final(decoder).applies_format(old(decoder), *hint),
            {
                decoder.apply_format(hint);
            };
        let negotiator = StatelessDecoderFormatNegotiator::new(self, header, apply_format);
        negotiator.finish();
    }

    /// What `negotiate_format` makes of the decoder `before`, with the result `changed`.
    ///
    /// If the negotiation was not possible the call fails with `NegotiationFailed`, and
    /// nothing changes. Else it ends the negotiation: the decoder decodes, with the
    /// resolution of the key frame that was kept, and is else as it was. The backend is as
    /// `try_format` leaves it, with the negotiation ended: frames are handed out in
    /// `format` from surfaces that were allocated anew, all of them free, if the request
    /// was granted, and its frames and its format are as they were if not.
    pub open spec fn negotiates_and_applies(
        &self,
        before: &Self,
        format: DecodedFormat,
        changed: Result<(), StatelessBackendError>,
    ) -> bool {
        &&& self.parser == before.parser
        &&& self.blocking_mode == before.blocking_mode
        &&& self.keeps_frames(before, Seq::empty())
        &&& before.holds_queue() ==> self.holds_queue()
        &&& self.backend.handles@ == before.backend.handles@
        &&& self.backend.pending_jobs@ == before.backend.pending_jobs@
        &&& self.backend.spec_coded_resolution() == before.backend.spec_coded_resolution()
        &&& self.backend.spec_display_resolution() == before.backend.spec_display_resolution()
        &&& self.backend.spec_num_resources_total() == before.backend.spec_num_resources_total()
        &&& match changed {
            Ok(_) => {
                &&& before.spec_can_negotiate()
                &&& self.backend.spec_format() == Some(format)
                &&& self.backend.spec_num_resources_left()
                    == self.backend.spec_num_resources_total()
            },
            Err(_) => {
                &&& self.backend.metadata_state == before.backend.metadata_state
                &&& self.backend.next_id == before.backend.next_id
            },
        }
        &&& match before.negotiation_status {
            NegotiationStatus::Possible { key_frame } => {
                &&& self.negotiation_status is Negotiated
                &&& self.coded_resolution == resolution_of(key_frame.1)
                &&& !(self.backend.negotiation_status is Possible)
            },
            _ => is_failed_negotiation(changed) && self.same_state(before),
        }
    }

    /// Holds the negotiation as a client does, through a negotiator: asks for `format`,
    /// and ends the negotiation whether or not the request was granted. The decoder
    /// decodes after the call if the negotiation was possible, in `format` if the request
    /// was granted and in the format that it had if not.
    ///
    /// Fails as `try_format` does.
    pub fn negotiate_format(&mut self, format: DecodedFormat) -> (changed: Result<
        (),
        StatelessBackendError,
    >)
        requires
            old(self).wf(),
        ensures
            final(self).wf(),
            final(self).negotiates_and_applies(old(self), format, changed),
    {
        let header = match &self.negotiation_status {
            NegotiationStatus::Possible { key_frame } => key_frame.1,
            _ => {
                return self.try_format(format);
            },
        };
        let apply_format = |decoder: &mut Self, hint: &Header|
            requires
                old(decoder).wf(),
            ensures
                final(decoder).wf(),
                final(decoder).applies_format(old(decoder), *hint),
            {
                decoder.apply_format(hint);
            };
        let mut negotiator = StatelessDecoderFormatNegotiator::new(self, header, apply_format);
        let changed = negotiator.try_format(format);
        negotiator.finish();
        changed
    }

    /// A frame that is handed out comes later in the display order than every frame that
    /// was handed out before it: if `first` is handed out of `before` and `second` of what
    /// that leaves, each frame of `second` has a greater display order than each frame of
    /// `first`.
    pub proof fn lemma_display_order_increases(
        &self,
        middle: &Self,
        before: &Self,
        first: Seq<DecodedHandle>,
        second: Seq<DecodedHandle>,
        i: int,
        j: int,
    )
        requires
            before.wf(),
            middle.delivers(before, first),
            self.delivers(middle, second),
            0 <= i < first.len(),
            0 <= j < second.len(),
        ensures
            first[i].display_order is Some,
            second[j].display_order is Some,
            first[i].display_order.unwrap() < second[j].display_order.unwrap(),
    {
    }

    /// The frames that are handed out in one call take places in the display order that
    /// follow one another.
    pub proof fn lemma_display_order_is_contiguous(
        &self,
        before: &Self,
        frames: Seq<DecodedHandle>,
        i: int,
    )
        requires
            before.wf(),
            self.delivers(before, frames),
            0 <= i < frames.len() - 1,
        ensures
            frames[i].display_order is Some,
            frames[i + 1].display_order == Some((frames[i].display_order.unwrap() + 1) as u64),
    {
    }

    /// A frame gets a place in the display order exactly if it is shown: the frame is in the
    /// queue, with the next place, if it is shown, and the queue is as before if it is
    /// not.
    pub proof fn lemma_display_order_iff_shown(
        queue: Seq<DecodedHandle>,
        header: Header,
        handle: DecodedHandle,
        order: u64,
    )
        requires
            handle.display_order is None,
        ensures
            header.show_frame ==> queue_after(queue, header, handle, order).last().display_order
                == Some(order) && queue_after(queue, header, handle, order).len() == queue.len()
                + 1,
            !header.show_frame ==> queue_after(queue, header, handle, order) == queue,
            order_after(order, header) == order + 1 <==> header.show_frame,
    {
    }

    /// The format lasts until the next sequence starts: a frame that starts none is
    /// decoded with the format, the resolution and the resources of the stream as they
    /// are.
    pub proof fn lemma_format_lasts_until_next_sequence(
        &self,
        before: &Self,
        timestamp: u64,
        frame: Frame,
        decoded: Result<Vec<DecodedHandle>, DecodeError>,
    )
        requires
            self.decodes(before, timestamp, frame, decoded),
            !before.starts_sequence(frame.header),
        ensures
            self.same_stream(before),
    {
    }

    /// What two decoders have in common that have been given the same input, whatever
    /// their blocking modes are and whatever the hardware has completed for each. The
    /// frames that `self` has handed out are `delivered`, and those of `other` are
    /// `other_delivered`.
    ///
    /// The frames that were handed out and the frames of the queue are together the same
    /// frames, in the same order. The next frame gets the same handle and the same place
    /// in the display order, and the negotiation stands alike, for the same key frame.
    pub open spec fn agrees_with(
        &self,
        other: &Self,
        delivered: Seq<DecodedHandle>,
        other_delivered: Seq<DecodedHandle>,
    ) -> bool {
        &&& delivered + self.ready_queue@ == other_delivered + other.ready_queue@
        &&& self.current_display_order == other.current_display_order
        &&& self.coded_resolution == other.coded_resolution
        &&& self.backend.next_id == other.backend.next_id
        &&& self.backend.spec_display_resolution() == other.backend.spec_display_resolution()
        &&& match self.negotiation_status {
            NegotiationStatus::NonNegotiated => other.negotiation_status is NonNegotiated,
            NegotiationStatus::Negotiated => other.negotiation_status is Negotiated,
            NegotiationStatus::Possible { key_frame } => {
                &&& other.negotiation_status matches NegotiationStatus::Possible {
                    key_frame: other_key_frame,
                }
                &&& key_frame.0 == other_key_frame.0
                &&& key_frame.1 == other_key_frame.1
            },
        }
    }

    /// Two decoders that agree still agree after each has decoded the same frame, whether
    /// or not they block: what the one has handed out and what it has in its queue are
    /// together what the other has handed out and has in its queue. They differ only in
    /// when a frame leaves the queue.
    pub proof fn lemma_decode_keeps_agreement(
        &self,
        before: &Self,
        other: &Self,
        other_before: &Self,
        timestamp: u64,
        frame: Frame,
        frames: Vec<DecodedHandle>,
        other_frames: Vec<DecodedHandle>,
        delivered: Seq<DecodedHandle>,
        other_delivered: Seq<DecodedHandle>,
    )
        requires
            before.agrees_with(other_before, delivered, other_delivered),
            self.decodes(before, timestamp, frame, Ok(frames)),
            other.decodes(other_before, timestamp, frame, Ok(other_frames)),
        ensures
            self.agrees_with(other, delivered + frames@, other_delivered + other_frames@),
    {
        let queue = delivered + before.ready_queue@;
        assert((delivered + frames@) + self.ready_queue@ =~= delivered + (frames@
            + self.ready_queue@));
        assert((other_delivered + other_frames@) + other.ready_queue@ =~= other_delivered + (
        other_frames@ + other.ready_queue@));
        if !before.passes_over(frame.header) && !before.starts_sequence(frame.header) {
            match before.negotiation_status {
                NegotiationStatus::Possible { key_frame } => {
                    let first = before.handle_after(0, key_frame.0);
                    let second = before.handle_after(1, timestamp);
                    let order = order_after(before.current_display_order, key_frame.1);
                    let with_first = queue_after(
                        queue,
                        key_frame.1,
                        first,
                        before.current_display_order,
                    );
                    let with_both = queue_after(with_first, frame.header, second, order as u64);
                    assert(delivered + (frames@ + self.ready_queue@) =~= with_both);
                    assert(other_delivered + (other_frames@ + other.ready_queue@)
                        =~= with_both);
                },
                _ => {
                    let with_frame = queue_after(
                        queue,
                        frame.header,
                        before.next_handle(timestamp),
                        before.current_display_order,
                    );
                    assert(delivered + (frames@ + self.ready_queue@) =~= with_frame);
                    assert(other_delivered + (other_frames@ + other.ready_queue@)
                        =~= with_frame);
                },
            }
        }
    }

    /// Two decoders that agree and hold their queues have handed out the same frames, in
    /// the same order, once each has been flushed, whether or not they block: the same
    /// handles, and so the same timestamps and places in the display order.
    pub proof fn lemma_flush_gives_the_same_frames(
        &self,
        before: &Self,
        other: &Self,
        other_before: &Self,
        frames: Vec<DecodedHandle>,
        other_frames: Vec<DecodedHandle>,
        delivered: Seq<DecodedHandle>,
        other_delivered: Seq<DecodedHandle>,
    )
        requires
            before.agrees_with(other_before, delivered, other_delivered),
            before.holds_queue(),
            other_before.holds_queue(),
            self.flushes(before, Ok(frames)),
            other.flushes(other_before, Ok(other_frames)),
        ensures
            delivered + frames@ == other_delivered + other_frames@,
            self.ready_queue@.len() == 0,
            other.ready_queue@.len() == 0,
            self.agrees_with(other, delivered + frames@, other_delivered + other_frames@),
    {
        let queue = delivered + before.ready_queue@;
        assert(frames@ + self.ready_queue@ =~= frames@);
        assert(other_frames@ + other.ready_queue@ =~= other_frames@);
        assert((delivered + frames@) + self.ready_queue@ =~= delivered + frames@);
        assert((other_delivered + other_frames@) + other.ready_queue@ =~= other_delivered
            + other_frames@);
        match before.negotiation_status {
            NegotiationStatus::Possible { key_frame } => {
                let with_frame = queue_after(
                    queue,
                    key_frame.1,
                    before.next_handle(key_frame.0),
                    before.current_display_order,
                );
                assert(delivered + frames@ =~= with_frame);
                assert(other_delivered + other_frames@ =~= with_frame);
            },
            _ => {
                assert(delivered + frames@ =~= queue);
                assert(other_delivered + other_frames@ =~= queue);
            },
        }
    }

    /// A decoder that blocks, with an empty queue, hands out a frame that is shown in the
    /// call that decodes it: the result of a successful call is that frame, with the next
    /// place in the display order.
    pub proof fn lemma_blocking_decode_hands_out_frame(
        &self,
        before: &Self,
        timestamp: u64,
        frame: Frame,
        frames: Vec<DecodedHandle>,
    )
        requires
            self.decodes(before, timestamp, frame, Ok(frames)),
            before.negotiation_status is Negotiated,
            !before.starts_sequence(frame.header),
            before.blocking_mode is Blocking,
            before.ready_queue@.len() == 0,
            frame.header.show_frame,
        ensures
            frames@ == seq![
                with_display_order(before.next_handle(timestamp), before.current_display_order),
            ],
            self.ready_queue@.len() == 0,
            self.backend.spec_is_ready(&frames@[0]),
    {
        let handle = with_display_order(
            before.next_handle(timestamp),
            before.current_display_order,
        );
        assert((frames@ + self.ready_queue@)[0] == handle);
        assert((frames@ + self.ready_queue@).len() == 1);
        if frames@.len() == 0 {
            assert(self.ready_queue@[0] == handle);
        }
        assert(frames@ =~= seq![handle]);
    }

    /// A decoder that blocks and holds its queue hands out, in a call to `decode` that
    /// succeeds, every frame of the queue and then the frame of the call, if that is
    /// shown.
    pub proof fn lemma_blocking_decode_hands_out_queue(
        &self,
        before: &Self,
        timestamp: u64,
        frame: Frame,
        frames: Vec<DecodedHandle>,
    )
        requires
            self.decodes(before, timestamp, frame, Ok(frames)),
            before.negotiation_status is Negotiated,
            !before.starts_sequence(frame.header),
            before.blocking_mode is Blocking,
            before.holds_queue(),
        ensures
            frames@ == queue_after(
                before.ready_queue@,
                frame.header,
                before.next_handle(timestamp),
                before.current_display_order,
            ),
            self.ready_queue@.len() == 0,
            self.holds_queue(),
    {
        assert(frames@ + self.ready_queue@ =~= frames@);
    }

    /// The first call to `decode` after a sequence has started decodes the key frame that
    /// was kept, and hands it out if it is shown and the queue was empty: the result of a
    /// successful call starts with that frame, with the timestamp that it came with. A
    /// decoder that blocks hands out the frame of the call after it, if that is shown.
    pub proof fn lemma_decode_hands_out_key_frame(
        &self,
        before: &Self,
        timestamp: u64,
        frame: Frame,
        frames: Vec<DecodedHandle>,
    )
        requires
            self.decodes(before, timestamp, frame, Ok(frames)),
            before.negotiation_status is Possible,
            before.ready_queue@.len() == 0,
            before.negotiation_status->key_frame.1.show_frame,
        ensures
            self.negotiation_status is Negotiated,
            frames@.len() >= 1,
            frames@[0] == with_display_order(
                before.handle_after(0, before.negotiation_status->key_frame.0),
                before.current_display_order,
            ),
            before.blocking_mode is Blocking && frame.header.show_frame ==> frames@.len() == 2
                && frames@[1] == with_display_order(
                before.handle_after(1, timestamp),
                (before.current_display_order + 1) as u64,
            ),
    {
        let key_frame = before.negotiation_status->key_frame;
        let first = with_display_order(
            before.handle_after(0, key_frame.0),
            before.current_display_order,
        );
        let queue = frames@ + self.ready_queue@;
        assert(queue[0] == first);
        if frames@.len() == 0 {
            assert(self.ready_queue@[0] == first);
        }
        assert(frames@[0] == queue[0]);
        if before.blocking_mode is Blocking && frame.header.show_frame {
            let second = with_display_order(
                before.handle_after(1, timestamp),
                (before.current_display_order + 1) as u64,
            );
            assert(queue.len() == 2);
            assert(queue[1] == second);
            if frames@.len() == 1 {
                assert(self.ready_queue@[0] == queue[1]);
            }
            assert(frames@[1] == queue[1]);
        }
    }

    /// `flush` decodes the key frame that is kept while the negotiation is possible, and
    /// hands it out if it is shown and the queue was empty: the result of a successful
    /// call is that frame, so that a stream of one frame gives its frame.
    pub proof fn lemma_flush_hands_out_key_frame(
        &self,
        before: &Self,
        frames: Vec<DecodedHandle>,
    )
        requires
            self.flushes(before, Ok(frames)),
            before.negotiation_status is Possible,
            before.ready_queue@.len() == 0,
            before.negotiation_status->key_frame.1.show_frame,
        ensures
            frames@ == seq![
                with_display_order(
                    before.next_handle(before.negotiation_status->key_frame.0),
                    before.current_display_order,
                ),
            ],
            self.ready_queue@.len() == 0,
    {
        let key_frame = before.negotiation_status->key_frame;
        let handle = with_display_order(
            before.next_handle(key_frame.0),
            before.current_display_order,
        );
        assert((frames@ + self.ready_queue@)[0] == handle);
        assert((frames@ + self.ready_queue@).len() == 1);
        if frames@.len() == 0 {
            assert(self.ready_queue@[0] == handle);
        }
        assert(frames@ =~= seq![handle]);
    }

    /// A decoder that holds its queue hands out a frame whenever a call to `decode` takes
    /// the last surface, whether or not it blocks, so that the client has a frame to give
    /// back: the result of a successful call starts with the first of the frames that were
    /// in the queue once the input had been submitted, and that frame is ready.
    pub proof fn lemma_last_surface_hands_out_frame(
        &self,
        before: &Self,
        timestamp: u64,
        frame: Frame,
        frames: Vec<DecodedHandle>,
    )
        requires
            self.decodes(before, timestamp, frame, Ok(frames)),
            before.holds_queue(),
            !before.passes_over(frame.header),
            !before.starts_sequence(frame.header),
            self.backend.spec_num_resources_left() == 0,
            frames@.len() + self.ready_queue@.len() > 0,
        ensures
            frames@.len() > 0,
            self.backend.spec_is_ready(&frames@[0]),
            self.holds_queue(),
    {
    }

    /// The decoder still holds its queue after a handle has been given back to a frame that
    /// is not in the queue, as the frames are that it has handed out.
    pub proof fn lemma_release_keeps_queue(&self, before: &Self, handle: DecodedHandle)
        requires
            before.wf(),
            before.holds_queue(),
            self.same_frames(before),
            self.backend.released(&before.backend, handle.inner),
            forall|i: int|
                0 <= i < before.ready_queue@.len() ==> (#[trigger] before.ready_queue@[i]).inner
                    != handle.inner,
        ensures
            self.holds_queue(),
    {
        assert forall|i: int| 0 <= i < self.ready_queue@.len() implies self.holds_frame(
                    (#[trigger] self.ready_queue@[i]).inner,
                ) by {
            let id = self.ready_queue@[i].inner;
            assert(before.ready_queue@[i].inner == id);
            assert(self.backend.handles@[id] == before.backend.handles@[id]);
        }
    }

    /// A negotiation ends with the format negotiated, whether or not a format was asked
    /// for and whether or not the request was granted: if `try_format` leaves `asked` of
    /// `before`, in which the negotiation was possible, and `apply_format` leaves `self`
    /// of `asked`, the decoder decodes. The format is the one that was asked for if the
    /// request was granted, and the one of `before` if it was not.
    pub proof fn lemma_negotiation_ends_negotiated(
        &self,
        asked: &Self,
        before: &Self,
        format: DecodedFormat,
        changed: Result<(), StatelessBackendError>,
        header: Header,
    )
        requires
            before.spec_negotiation_possible(),
            asked.negotiates(before, format, changed),
            self.applies_format(asked, header),
        ensures
            self.negotiation_status is Negotiated,
            !(self.backend.negotiation_status is Possible),
            changed is Ok ==> self.backend.spec_format() == Some(format),
            changed is Err ==> self.backend.spec_format() == before.backend.spec_format(),
    {
    }

    /// Input that is refused for want of a free surface leaves the decoder as it was, the
    /// negotiation included, so that the same input can be submitted again once a frame
    /// has been given back.
    pub proof fn lemma_refused_input_changes_nothing(
        &self,
        before: &Self,
        timestamp: u64,
        frame: Frame,
        decoded: Result<Vec<DecodedHandle>, DecodeError>,
    )
        requires
            self.decodes(before, timestamp, frame, decoded),
            decoded matches Err(DecodeError::CheckEvents),
        ensures
            before.lacks_surfaces(),
            self.negotiation_status == before.negotiation_status,
            self.coded_resolution == before.coded_resolution,
            self.keeps_frames(before, Seq::empty()),
            self.backend.same_state(&before.backend),
    {
    }

    /// A key frame that changes the resolution while the decoder decodes starts a new
    /// sequence: if the call succeeds it hands nothing out, and leaves the negotiation
    /// possible, with the new resolution.
    pub proof fn lemma_resolution_change_starts_negotiation(
        &self,
        before: &Self,
        timestamp: u64,
        frame: Frame,
        decoded: Result<Vec<DecodedHandle>, DecodeError>,
    )
        requires
            self.decodes(before, timestamp, frame, decoded),
            before.negotiation_status is Negotiated,
            frame.header.key_frame,
            resolution_of(frame.header) != before.coded_resolution,
            decoded is Ok,
        ensures
            decoded.unwrap()@.len() == 0,
            self.spec_negotiation_possible(),
            self.coded_resolution == resolution_of(frame.header),
            self.backend.spec_coded_resolution() == Some(resolution_of(frame.header)),
    {
    }
}

impl<P: Parser + Clone, D: Vp8Display<P>> StatelessVideoDecoder for Decoder<P, D> {
    type Handle = DecodedHandle;

    type FormatHint = Header;

    open spec fn valid(&self) -> bool {
        self.wf()
    }

    open spec fn spec_format(&self) -> Option<DecodedFormat> {
        self.backend.spec_format()
    }

    open spec fn spec_coded_resolution(&self) -> Option<Resolution> {
        self.backend.spec_coded_resolution()
    }

    open spec fn spec_num_resources_total(&self) -> usize {
        self.backend.spec_num_resources_total()
    }

    open spec fn spec_num_resources_left(&self) -> usize {
        self.resources_left_or_zero()
    }

    fn decode(&mut self, timestamp: u64, bitstream: &[u8]) -> (decoded: Result<
        Vec<DecodedHandle>,
        DecodeError,
    >)
        ensures
            final(self).parses_and_decodes(old(self), timestamp, bitstream@, decoded),
    {
        Decoder::decode(self, timestamp, bitstream)
    }

    fn flush(&mut self) -> (flushed: Result<Vec<DecodedHandle>, DecodeError>)
        ensures
            final(self).flushes(old(self), flushed),
    {
        Decoder::flush(self)
    }

    /// The number of surfaces that the next frames can take, and none before a key frame
    /// has been seen.
    fn num_resources_left(&self) -> (left: usize) {
        match Decoder::num_resources_left(self) {
            Some(left) => left,
            None => 0,
        }
    }

    fn num_resources_total(&self) -> (total: usize) {
        Decoder::num_resources_total(self)
    }

    fn coded_resolution(&self) -> (resolution: Option<Resolution>) {
        Decoder::coded_resolution(self)
    }

    fn next_event(&mut self) -> (event: Option<DecoderEvent<Header, DecodedHandle>>)
        ensures
            final(self).announces(old(self), event),
    {
        Decoder::next_event(self)
    }

    fn format(&self) -> (format: Option<DecodedFormat>) {
        Decoder::format(self)
    }
}

impl<P: Parser + Clone, D: Vp8Display<P>> private::StatelessVideoDecoder for Decoder<P, D> {
    open spec fn can_negotiate(&self) -> bool {
        self.spec_negotiation_possible()
    }

    open spec fn negotiated(
        &self,
        before: &Self,
        format: DecodedFormat,
        changed: Result<(), StatelessBackendError>,
    ) -> bool {
        self.negotiates(before, format, changed)
    }

    fn try_format(&mut self, format: DecodedFormat) -> (changed: Result<
        (),
        StatelessBackendError,
    >)
        ensures
            final(self).negotiates(old(self), format, changed),
    {
        Decoder::try_format(self, format)
    }
}

} // verus!
