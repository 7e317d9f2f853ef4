//! What VP8 asks of the VA-API backend: the setup for a VP8 stream, and the submission of a
//! VP8 frame.

use crate::decoder::stateless::StatelessBackendError;
use crate::decoder::stateless::StatelessBackendResult;
use crate::decoders::vp8::parser::Header;
use crate::decoders::BlockingMode;
use crate::utils::vaapi::not_parsed_message;
use crate::utils::vaapi::DecodedHandle;
use crate::utils::vaapi::Display;
use crate::utils::vaapi::NegotiationStatus;
use crate::utils::vaapi::Picture;
use crate::utils::vaapi::StreamInfo;
use crate::utils::vaapi::StreamMetadataState;
use crate::utils::vaapi::VaapiBackend;
use crate::utils::vaapi::VA_RT_FORMAT_YUV420;
use crate::Resolution;
use vstd::prelude::*;

verus! {

/// The number of surfaces that are allocated for a VP8 stream.
pub const NUM_SURFACES: usize = 7;

/// The driver's profile for VP8.
pub const VA_PROFILE_VP8_VERSION0_3: i32 = 14;

impl StreamInfo for Header {
    open spec fn spec_va_profile(&self) -> Option<i32> {
        Some(VA_PROFILE_VP8_VERSION0_3)
    }

    open spec fn spec_rt_format(&self) -> Option<u32> {
        Some(VA_RT_FORMAT_YUV420)
    }

    open spec fn spec_min_num_surfaces(&self) -> usize {
        NUM_SURFACES
    }

    open spec fn spec_coded_size(&self) -> (u32, u32) {
        (self.width as u32, self.height as u32)
    }

    open spec fn spec_visible_rect(&self) -> ((u32, u32), (u32, u32)) {
        ((0, 0), (self.width as u32, self.height as u32))
    }

    fn va_profile(&self) -> (profile: Result<i32, String>) {
        Ok(VA_PROFILE_VP8_VERSION0_3)
    }

    fn rt_format(&self) -> (rt_format: Result<u32, String>) {
        Ok(VA_RT_FORMAT_YUV420)
    }

    fn min_num_surfaces(&self) -> (count: usize) {
        NUM_SURFACES
    }

    fn coded_size(&self) -> (size: (u32, u32)) {
        (self.width as u32, self.height as u32)
    }

    fn visible_rect(&self) -> (rect: ((u32, u32), (u32, u32))) {
        ((0, 0), self.coded_size())
    }
}

/// A driver that decodes VP8. `P` is the parser whose state the driver reads the
/// parameters of a frame from.
///
/// Nothing is assumed of what the driver returns.
pub trait Vp8Display<P>: Display {
    /// Prepares the picture that decodes the frame of `bitstream` into `surface`: hands the
    /// parameters of the frame, the surfaces of its reference frames, and its data to the
    /// driver. A reference that is missing is `VA_INVALID_SURFACE`.
    fn prepare_picture(
        &mut self,
        context: u32,
        surface: u32,
        coded_resolution: Resolution,
        header: &Header,
        last_ref: u32,
        golden_ref: u32,
        alt_ref: u32,
        bitstream: &[u8],
        parser: &P,
        timestamp: u64,
    ) -> Result<(), String>;
}

impl<D: Display> VaapiBackend<Header, D> {
    /// Submits a frame for decoding into a free surface, and returns the handle to the
    /// frame that will hold it. With `Blocking` the frame is ready on return; else it is
    /// pending, a handle to it joins the frames that are waited for, and `poll` tells when
    /// it is ready. Once a frame has been submitted the format is negotiated.
    ///
    /// Fails with `OutOfResources` if no surface is free, and then nothing changes; and
    /// with `Other` if the stream has not been parsed or the driver fails. If the driver
    /// fails before the picture is submitted, the surface goes back to the pool; if it
    /// fails on the submission the surface is lost; and if it fails on the wait the frame
    /// is given back, and its surface with it. No frame is left of a submission that
    /// failed (see `gave_up`).
    pub fn submit_picture<P>(
        &mut self,
        picture: &Header,
        last_ref: Option<&DecodedHandle>,
        golden_ref: Option<&DecodedHandle>,
        alt_ref: Option<&DecodedHandle>,
        bitstream: &[u8],
        parser: &P,
        timestamp: u64,
        block: BlockingMode,
    ) -> (handle: StatelessBackendResult<DecodedHandle>) where D: Vp8Display<P>
        requires
            old(self).wf(),
        ensures
            final(self).wf(),
            old(self).next_id <= final(self).next_id,
            handle is Ok ==> final(self).negotiation_status is Negotiated,
            handle is Err ==> final(self).negotiation_status == old(self).negotiation_status,
            final(self).same_stream(old(self)),
            old(self).metadata_state is Unparsed ==> (handle matches Err(
                StatelessBackendError::Other(cause),
            ) && cause@ == not_parsed_message()),
            old(self).metadata_state is Parsed && old(self).spec_num_resources_left() == 0
                ==> handle matches Err(StatelessBackendError::OutOfResources),
            handle matches Err(StatelessBackendError::OutOfResources) ==> final(self).same_state(
                old(self),
            ) && old(self).metadata_state is Parsed && old(self).spec_num_resources_left() == 0,
            handle is Err ==> final(self).gave_up(old(self)),
            handle matches Err(error) ==> error is OutOfResources || error is Other,
            handle matches Ok(handle) ==> {
                &&& old(self).metadata_state matches StreamMetadataState::Parsed(metadata)
                &&& handle == (DecodedHandle {
                    inner: old(self).next_id,
                    timestamp,
                    display_resolution: metadata.display_resolution,
                    display_order: None,
                })
                &&& final(self).handles@.contains_key(handle.inner)
                &&& final(self).handles@[handle.inner].holders == (if block is Blocking {
                    1u64
                } else {
                    2u64
                })
                &&& final(self).next_id == old(self).next_id + 1
                &&& final(self).spec_num_resources_left() + 1 == old(self).spec_num_resources_left()
                &&& block is Blocking ==> final(self).spec_is_ready(&handle)
                &&& final(self).pending_jobs@ == (if block is Blocking {
                    old(self).pending_jobs@
                } else {
                    old(self).pending_jobs@.push(handle)
                })
                &&& forall|id: u64|
                    id != handle.inner && old(self).handles@.contains_key(id)
                        ==> #[trigger] final(self).frame_stays(old(self), id)
                        && final(self).handles@[id].holders == old(self).handles@[id].holders
            },
    {
        let surface = self.acquire_surface()?;
        let last_ref = self.surface_id_of(last_ref);
        let golden_ref = self.surface_id_of(golden_ref);
        let alt_ref = self.surface_id_of(alt_ref);
        let prepared = match &self.metadata_state {
            StreamMetadataState::Parsed(metadata) => self.display.prepare_picture(
                metadata.context,
                surface.id(),
                metadata.surface_pool.coded_resolution(),
                picture,
                last_ref,
                golden_ref,
                alt_ref,
                bitstream,
                parser,
                timestamp,
            ),
            StreamMetadataState::Unparsed => Ok(()),
        };
        if let Err(cause) = prepared {
            self.return_surface(surface);
            return Err(StatelessBackendError::Other(cause));
        }
        let handle = self.process_picture(Picture::new(timestamp, surface))?;
        match block {
            BlockingMode::Blocking => {
                if let Err(error) = self.block_on_handle(&handle) {
                    self.release_handle(handle);
                    assert(self.handles@ =~= old(self).handles@);
                    return Err(error);
                }
            },
            BlockingMode::NonBlocking => {
                let job = self.clone_handle(&handle);
                self.pending_jobs.push_back(job);
            },
        }
        self.negotiation_status = NegotiationStatus::Negotiated;
        Ok(handle)
    }
}

} // verus!
