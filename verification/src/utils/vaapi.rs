//! The VA-API backend: stream metadata, the surface pool, and the handles of decoded frames.
//!
//! The driver is reached through the trait [`Display`]. Its methods promise nothing, so the
//! backend checks what it is handed before it relies on it.

use crate::decoder::stateless::StatelessBackendError;
use crate::decoder::stateless::StatelessBackendResult;
use crate::decoders::BlockingMode;
use crate::align2;
use crate::decoded_frame_size;
use crate::i420_copy;
use crate::i420_readable;
use crate::is_i420_of;
use crate::is_nv12_of;
use crate::nv12_copy;
use crate::nv12_readable;
use crate::plane_fits;
use crate::spec_decoded_frame_size;
use crate::DecodedFormat;
use crate::Resolution;
use std::collections::HashMap;
use std::collections::VecDeque;
use vstd::prelude::*;

verus! {

broadcast use vstd::std_specs::hash::group_hash_axioms;

/// The surface format of 8-bit YUV 4:2:0.
pub const VA_RT_FORMAT_YUV420: u32 = 0x0000_0001;

/// The four-character code of NV12.
pub const VA_FOURCC_NV12: u32 = 0x3231_564E;

/// The four-character code of I420.
pub const VA_FOURCC_I420: u32 = 0x3032_3449;

/// The value of a configuration attribute that the driver does not support.
pub const VA_ATTRIB_NOT_SUPPORTED: u32 = 0x8000_0000;

/// The configuration attribute that lists the supported surface formats.
pub const VA_CONFIG_ATTRIB_RT_FORMAT: u32 = 0;

/// The entry point at which the driver takes over after the bitstream has been parsed.
pub const VA_ENTRYPOINT_VLD: u32 = 1;

/// The status of a surface that no operation is pending on.
pub const VA_SURFACE_READY: u32 = 4;

/// The identifier that stands for no surface.
pub const VA_INVALID_SURFACE: u32 = 0xffff_ffff;

/// Pairs a surface format with a pixel layout that its surfaces can be mapped in.
#[derive(Copy, Clone, Debug, PartialEq, Eq, Structural, Hash)]
pub struct FormatMap {
    pub rt_format: u32,
    pub va_fourcc: u32,
    pub decoded_format: DecodedFormat,
}

/// The number of entries in the preference list.
pub const FORMAT_MAP_LEN: usize = 2;

/// The preference list: for each surface format the pixel layouts it can be mapped in, the
/// preferred one first.
pub open spec fn spec_format_map() -> Seq<FormatMap> {
    seq![
        FormatMap {
            rt_format: VA_RT_FORMAT_YUV420,
            va_fourcc: VA_FOURCC_NV12,
            decoded_format: DecodedFormat::NV12,
        },
        FormatMap {
            rt_format: VA_RT_FORMAT_YUV420,
            va_fourcc: VA_FOURCC_I420,
            decoded_format: DecodedFormat::I420,
        },
    ]
}

/// The entry at `index` of the preference list.
pub fn format_map(index: usize) -> (entry: FormatMap)
    requires
        index < FORMAT_MAP_LEN,
    ensures
        entry == spec_format_map()[index as int],
{
    if index == 0 {
        FormatMap {
            rt_format: VA_RT_FORMAT_YUV420,
            va_fourcc: VA_FOURCC_NV12,
            decoded_format: DecodedFormat::NV12,
        }
    } else {
        FormatMap {
            rt_format: VA_RT_FORMAT_YUV420,
            va_fourcc: VA_FOURCC_I420,
            decoded_format: DecodedFormat::I420,
        }
    }
}

/// The first entry of the preference list for `rt_format`.
pub open spec fn spec_default_format_map(rt_format: u32) -> Option<FormatMap> {
    if spec_format_map()[0].rt_format == rt_format {
        Some(spec_format_map()[0])
    } else if spec_format_map()[1].rt_format == rt_format {
        Some(spec_format_map()[1])
    } else {
        None
    }
}

/// The first entry of the preference list for `rt_format`.
pub fn default_format_map(rt_format: u32) -> (entry: Option<FormatMap>)
    ensures
        entry == spec_default_format_map(rt_format),
{
    let mut i: usize = 0;
    while i < FORMAT_MAP_LEN
        invariant
            i <= FORMAT_MAP_LEN,
            forall|k: int| 0 <= k < i ==> (#[trigger] spec_format_map()[k]).rt_format != rt_format,
        decreases FORMAT_MAP_LEN - i,
    {
        let entry = format_map(i);
        if entry.rt_format == rt_format {
            return Some(entry);
        }
        i += 1;
    }
    assert(spec_format_map()[0].rt_format != rt_format);
    assert(spec_format_map()[1].rt_format != rt_format);
    None
}

/// The entry of the preference list that decodes into `format`.
pub open spec fn spec_format_map_for(format: DecodedFormat) -> FormatMap {
    match format {
        DecodedFormat::NV12 => spec_format_map()[0],
        DecodedFormat::I420 => spec_format_map()[1],
    }
}

/// The entry of the preference list that decodes into `format`.
pub fn format_map_for(format: DecodedFormat) -> (entry: FormatMap)
    ensures
        entry == spec_format_map_for(format),
        entry.decoded_format == format,
{
    match format {
        DecodedFormat::NV12 => format_map(0),
        DecodedFormat::I420 => format_map(1),
    }
}

/// The value behind an optional reference.
pub open spec fn option_copied<T>(reference: Option<&T>) -> Option<T> {
    match reference {
        Some(value) => Some(*value),
        None => None,
    }
}

/// The entry of the preference list to decode a stream of format `rt_format` with:
/// `requested` if it is for that format, else the first entry for that format.
pub open spec fn spec_choose_format_map(rt_format: u32, requested: Option<FormatMap>) -> Option<
    FormatMap,
> {
    match requested {
        Some(entry) if entry.rt_format == rt_format => Some(entry),
        _ => spec_default_format_map(rt_format),
    }
}

/// Chooses the entry of the preference list to decode a stream of format `rt_format` with.
pub fn choose_format_map(rt_format: u32, requested: Option<&FormatMap>) -> (entry: Option<
    FormatMap,
>)
    ensures
        entry == spec_choose_format_map(rt_format, option_copied(requested)),
{
    match requested {
        Some(entry) if entry.rt_format == rt_format => Some(*entry),
        _ => default_format_map(rt_format),
    }
}

/// A pixel layout as the driver describes it.
#[derive(Copy, Clone, Debug, PartialEq, Eq, Structural, Hash)]
pub struct ImageFormat {
    pub fourcc: u32,
    pub byte_order: u32,
    pub bits_per_pixel: u32,
    pub depth: u32,
    pub red_mask: u32,
    pub green_mask: u32,
    pub blue_mask: u32,
    pub alpha_mask: u32,
}

/// One of `formats` has the four-character code `fourcc`.
pub open spec fn has_fourcc(formats: Seq<ImageFormat>, fourcc: u32) -> bool {
    exists|i: int| 0 <= i < formats.len() && (#[trigger] formats[i]).fourcc == fourcc
}

/// The first of `formats` with the four-character code `fourcc`.
pub open spec fn first_with_fourcc(formats: Seq<ImageFormat>, fourcc: u32) -> Option<ImageFormat>
    decreases formats.len(),
{
    if formats.len() == 0 {
        None
    } else if formats[0].fourcc == fourcc {
        Some(formats[0])
    } else {
        first_with_fourcc(formats.skip(1), fourcc)
    }
}

/// Searching from `from` on finds what searching the whole list finds, if nothing before
/// `from` has the code.
pub proof fn lemma_first_with_fourcc_skips(formats: Seq<ImageFormat>, fourcc: u32, from: int)
    requires
        0 <= from <= formats.len(),
        forall|i: int| 0 <= i < from ==> (#[trigger] formats[i]).fourcc != fourcc,
    ensures
        first_with_fourcc(formats, fourcc) == first_with_fourcc(formats.skip(from), fourcc),
    decreases from,
{
    if from == 0 {
        assert(formats.skip(0) =~= formats);
    } else {
        lemma_first_with_fourcc_skips(formats, fourcc, from - 1);
        let rest = formats.skip(from - 1);
        assert(rest[0] == formats[from - 1]);
        assert(rest.skip(1) =~= formats.skip(from));
    }
}

/// The search finds a format exactly if one has the code, and what it finds has the code.
pub proof fn lemma_first_with_fourcc(formats: Seq<ImageFormat>, fourcc: u32)
    ensures
        first_with_fourcc(formats, fourcc) is Some <==> has_fourcc(formats, fourcc),
        first_with_fourcc(formats, fourcc) matches Some(found) ==> found.fourcc == fourcc
            && formats.contains(found),
    decreases formats.len(),
{
    if formats.len() == 0 {
    } else if formats[0].fourcc == fourcc {
        assert(formats[0].fourcc == fourcc);
    } else {
        let rest = formats.skip(1);
        lemma_first_with_fourcc(rest, fourcc);
        if has_fourcc(rest, fourcc) {
            let i = choose|i: int| 0 <= i < rest.len() && (#[trigger] rest[i]).fourcc == fourcc;
            assert(formats[i + 1] == rest[i]);
        }
        if has_fourcc(formats, fourcc) {
            let i = choose|i: int|
                0 <= i < formats.len() && (#[trigger] formats[i]).fourcc == fourcc;
            assert(rest[i - 1] == formats[i]);
        }
        if let Some(found) = first_with_fourcc(formats, fourcc) {
            let i = choose|i: int| 0 <= i < rest.len() && rest[i] == found;
            assert(formats[i + 1] == found);
        }
    }
}

/// Finds the first of `formats` with the four-character code `fourcc`.
pub fn find_image_format(formats: &Vec<ImageFormat>, fourcc: u32) -> (found: Option<ImageFormat>)
    ensures
        found == first_with_fourcc(formats@, fourcc),
{
    let mut i: usize = 0;
    while i < formats.len()
        invariant
            i <= formats.len(),
            forall|k: int| 0 <= k < i ==> (#[trigger] formats@[k]).fourcc != fourcc,
        decreases formats.len() - i,
    {
        if formats[i].fourcc == fourcc {
            proof {
                lemma_first_with_fourcc_skips(formats@, fourcc, i as int);
            }
            return Some(formats[i]);
        }
        i += 1;
    }
    proof {
        lemma_first_with_fourcc_skips(formats@, fourcc, i as int);
    }
    None
}

/// The layout that a four-character code names, if the decoder can hand it out.
pub open spec fn decoded_format_of(fourcc: u32) -> Option<DecodedFormat> {
    if fourcc == VA_FOURCC_NV12 {
        Some(DecodedFormat::NV12)
    } else if fourcc == VA_FOURCC_I420 {
        Some(DecodedFormat::I420)
    } else {
        None
    }
}

impl DecodedFormat {
    /// The layout that the driver's image format `value` names. Only NV12 and I420 are
    /// known.
    pub fn try_from(value: &ImageFormat) -> (format: StatelessBackendResult<DecodedFormat>)
        ensures
            match decoded_format_of(value.fourcc) {
                Some(known) => format == Ok::<DecodedFormat, StatelessBackendError>(known),
                None => format matches Err(StatelessBackendError::UnsupportedFormat),
            },
    {
        if value.fourcc == VA_FOURCC_NV12 {
            Ok(DecodedFormat::NV12)
        } else if value.fourcc == VA_FOURCC_I420 {
            Ok(DecodedFormat::I420)
        } else {
            Err(StatelessBackendError::UnsupportedFormat)
        }
    }
}

/// The attribute value `attribute` that the driver reports for a profile and an entry point
/// offers the surface format `rt_format`.
pub open spec fn rt_format_offered(attribute: u32, rt_format: u32) -> bool {
    attribute != VA_ATTRIB_NOT_SUPPORTED && attribute & rt_format != 0
}

/// Whether the attribute value that the driver reports offers the surface format.
pub fn is_rt_format_offered(attribute: u32, rt_format: u32) -> (offered: bool)
    ensures
        offered == rt_format_offered(attribute, rt_format),
{
    attribute != VA_ATTRIB_NOT_SUPPORTED && attribute & rt_format != 0
}

/// The entries of the preference list for `rt_format` that the driver can map, that is whose
/// four-character code is among `image_formats`.
pub open spec fn mappable(rt_format: u32, image_formats: Seq<ImageFormat>) -> spec_fn(
    FormatMap,
) -> bool {
    |entry: FormatMap| entry.rt_format == rt_format && has_fourcc(image_formats, entry.va_fourcc)
}

/// The formats that a stream of surface format `rt_format` can be decoded into, in order of
/// preference.
pub open spec fn spec_supported_formats(rt_format: u32, image_formats: Seq<ImageFormat>) -> Seq<
    FormatMap,
> {
    spec_format_map().filter(mappable(rt_format, image_formats))
}

/// The formats that a stream of surface format `rt_format` can be decoded into, given what
/// the driver answered: the attribute value for the stream's profile and entry point, and
/// the image formats it can map.
pub fn select_supported_formats(
    rt_format: u32,
    attribute: u32,
    image_formats: &Vec<ImageFormat>,
) -> (formats: StatelessBackendResult<Vec<FormatMap>>)
    ensures
        rt_format_offered(attribute, rt_format) ==> (formats matches Ok(list) && list@
            == spec_supported_formats(rt_format, image_formats@)),
        !rt_format_offered(attribute, rt_format) ==> formats matches Err(
            StatelessBackendError::UnsupportedFormat,
        ),
{
    if !is_rt_format_offered(attribute, rt_format) {
        return Err(StatelessBackendError::UnsupportedFormat);
    }
    let ghost keep = mappable(rt_format, image_formats@);
    let mut supported: Vec<FormatMap> = Vec::new();
    let mut i: usize = 0;
    proof {
        reveal(Seq::filter);
    }
    while i < FORMAT_MAP_LEN
        invariant
            i <= FORMAT_MAP_LEN,
            keep == mappable(rt_format, image_formats@),
            supported@ == spec_format_map().take(i as int).filter(keep),
        decreases FORMAT_MAP_LEN - i,
    {
        let entry = format_map(i);
        let found = find_image_format(image_formats, entry.va_fourcc);
        proof {
            lemma_first_with_fourcc(image_formats@, entry.va_fourcc);
            let all = spec_format_map();
            reveal(Seq::filter);
            assert(all.take(i + 1).drop_last() =~= all.take(i as int));
        }
        if entry.rt_format == rt_format && found.is_some() {
            supported.push(entry);
        }
        i += 1;
    }
    assert(spec_format_map().take(FORMAT_MAP_LEN as int) =~= spec_format_map());
    Ok(supported)
}

/// The image format that frames of a stream are mapped in, given what the driver answered:
/// the first of `image_formats` with the four-character code `va_fourcc`, if `attribute`
/// offers the surface format `rt_format`.
pub open spec fn spec_map_format(
    rt_format: u32,
    va_fourcc: u32,
    attribute: u32,
    image_formats: Seq<ImageFormat>,
) -> Option<ImageFormat> {
    if rt_format_offered(attribute, rt_format) {
        first_with_fourcc(image_formats, va_fourcc)
    } else {
        None
    }
}

/// The image format that frames of a stream of surface format `rt_format` are mapped in, for
/// the layout of four-character code `va_fourcc`, given what the driver answered: the
/// attribute value for the stream's profile and entry point, and the image formats it can
/// map.
///
/// Fails with `UnsupportedFormat` if the driver does not offer the surface format, or
/// cannot map the layout.
pub fn select_map_format(
    rt_format: u32,
    va_fourcc: u32,
    attribute: u32,
    image_formats: &Vec<ImageFormat>,
) -> (map_format: StatelessBackendResult<ImageFormat>)
    ensures
        match spec_map_format(rt_format, va_fourcc, attribute, image_formats@) {
            Some(format) => map_format == Ok::<ImageFormat, StatelessBackendError>(format),
            None => map_format matches Err(StatelessBackendError::UnsupportedFormat),
        },
{
    if !is_rt_format_offered(attribute, rt_format) {
        return Err(StatelessBackendError::UnsupportedFormat);
    }
    match find_image_format(image_formats, va_fourcc) {
        Some(format) => Ok(format),
        None => Err(StatelessBackendError::UnsupportedFormat),
    }
}

/// The text of the failure of a driver that hands out another number of surfaces than it
/// was asked for.
pub open spec fn surface_count_message() -> Seq<char> {
    "the driver allocated another number of surfaces"@
}

/// Holds the number of surfaces that the driver handed out against the number that it was
/// asked for: fails with `Other` unless they are the same.
pub fn accept_surface_count(allocated: usize, asked: u32) -> (accepted: StatelessBackendResult<
    (),
>)
    ensures
        allocated == asked ==> accepted is Ok,
        allocated != asked ==> (accepted matches Err(StatelessBackendError::Other(cause))
            && cause@ == surface_count_message()),
{
    if allocated == asked as usize {
        Ok(())
    } else {
        Err(
            StatelessBackendError::Other(
                "the driver allocated another number of surfaces".to_string(),
            ),
        )
    }
}

/// The entry of the preference list that `try_format` sets the stream up with: the entry of
/// `format`, if the driver can hand out the stream's frames in it.
pub open spec fn spec_requested_entry(supported: Seq<DecodedFormat>, format: DecodedFormat)
    -> Option<FormatMap> {
    if supported.contains(format) {
        Some(spec_format_map_for(format))
    } else {
        None
    }
}

/// The text of the failure of a negotiation for a layout that the stream cannot be handed
/// out in.
pub open spec fn unsupported_request_message() -> Seq<char> {
    "The requested format is unsupported."@
}

/// The entry of the preference list for `format`, where `supported` holds the layouts that
/// the driver can hand out the stream's frames in.
///
/// Fails with `NegotiationFailed` if `format` is not among them.
pub fn requested_entry(supported: &Vec<DecodedFormat>, format: DecodedFormat) -> (entry:
    StatelessBackendResult<FormatMap>)
    ensures
        match spec_requested_entry(supported@, format) {
            Some(wanted) => entry == Ok::<FormatMap, StatelessBackendError>(wanted),
            None => entry matches Err(StatelessBackendError::NegotiationFailed(cause))
                && cause@ == unsupported_request_message(),
        },
{
    if contains_format(supported, format) {
        Ok(format_map_for(format))
    } else {
        Err(
            StatelessBackendError::NegotiationFailed(
                "The requested format is unsupported.".to_string(),
            ),
        )
    }
}

/// The layouts of `formats`, in their order.
pub open spec fn decoded_formats(formats: Seq<FormatMap>) -> Seq<DecodedFormat> {
    formats.map_values(|entry: FormatMap| entry.decoded_format)
}

/// The layouts of `formats`, in their order.
pub fn decoded_formats_of(formats: &Vec<FormatMap>) -> (layouts: Vec<DecodedFormat>)
    ensures
        layouts@ == decoded_formats(formats@),
{
    let mut layouts: Vec<DecodedFormat> = Vec::new();
    let mut i: usize = 0;
    while i < formats.len()
        invariant
            i <= formats.len(),
            layouts@ == decoded_formats(formats@.take(i as int)),
        decreases formats.len() - i,
    {
        layouts.push(formats[i].decoded_format);
        assert(formats@.take(i + 1) =~= formats@.take(i as int).push(formats@[i as int]));
        assert(layouts@ =~= decoded_formats(formats@.take(i + 1)));
        i += 1;
    }
    assert(formats@.take(i as int) =~= formats@);
    layouts
}

/// Whether `format` is among `formats`.
pub fn contains_format(formats: &Vec<DecodedFormat>, format: DecodedFormat) -> (found: bool)
    ensures
        found == formats@.contains(format),
{
    let mut i: usize = 0;
    while i < formats.len()
        invariant
            i <= formats.len(),
            forall|k: int| 0 <= k < i ==> formats@[k] != format,
        decreases formats.len() - i,
    {
        if formats[i] == format {
            return true;
        }
        i += 1;
    }
    false
}

/// A render target of the driver, sized to a coded resolution. Whoever holds the value owns
/// the surface: the pool, or the picture that is rendered into it.
#[derive(Debug)]
pub struct Surface {
    pub id: u32,
}

impl Surface {
    /// The surface that the driver knows as `id`.
    pub fn new(id: u32) -> (surface: Surface)
        ensures
            surface.id == id,
    {
        Surface { id }
    }

    /// The identifier that the driver knows the surface by.
    pub fn id(&self) -> (id: u32)
        ensures
            id == self.id,
    {
        self.id
    }
}

/// A surface together with the decode operation that renders into it.
#[derive(Debug)]
pub struct Picture {
    pub timestamp: u64,
    pub surface: Surface,
}

impl Picture {
    /// A picture that will be rendered into `surface`.
    pub fn new(timestamp: u64, surface: Surface) -> (picture: Picture)
        ensures
            picture.timestamp == timestamp,
            picture.surface == surface,
    {
        Picture { timestamp, surface }
    }

    /// The timestamp that the picture was submitted with.
    pub fn timestamp(&self) -> (timestamp: u64)
        ensures
            timestamp == self.timestamp,
    {
        self.timestamp
    }

    /// The identifier of the surface that holds the picture.
    pub fn surface_id(&self) -> (id: u32)
        ensures
            id == self.surface.id,
    {
        self.surface.id
    }

    /// Gives the surface back and ends the picture.
    pub fn take_surface(self) -> (surface: Surface)
        ensures
            surface == self.surface,
    {
        self.surface
    }
}

/// A queue of free surfaces of one coded resolution. Surfaces are costly to allocate, so
/// they are used again once the frame that they held has been given back.
#[derive(Debug)]
pub struct SurfacePoolHandle {
    surfaces: VecDeque<Surface>,
    coded_resolution: Resolution,
}

impl View for SurfacePoolHandle {
    type V = Seq<Surface>;

    /// The free surfaces, the next one to be handed out first.
    closed spec fn view(&self) -> Seq<Surface> {
        self.surfaces@
    }
}

impl SurfacePoolHandle {
    /// The coded resolution of the surfaces in the pool.
    pub closed spec fn spec_coded_resolution(&self) -> Resolution {
        self.coded_resolution
    }

    /// Creates a pool that holds `surfaces`, each of size `resolution`.
    pub fn new(surfaces: Vec<Surface>, resolution: Resolution) -> (pool: SurfacePoolHandle)
        ensures
            pool@ == surfaces@,
            pool.spec_coded_resolution() == resolution,
    {
        let mut queue: VecDeque<Surface> = VecDeque::new();
        let mut rest = surfaces;
        while rest.len() > 0
            invariant
                rest@ + queue@ == surfaces@,
            decreases rest.len(),
        {
            let ghost before = rest@;
            let ghost queued = queue@;
            if let Some(surface) = rest.pop() {
                queue.push_front(surface);
                assert(rest@ + queue@ =~= before + queued) by {
                    assert(before =~= rest@.push(surface));
                }
            }
        }
        assert(queue@ =~= surfaces@);
        SurfacePoolHandle { surfaces: queue, coded_resolution: resolution }
    }

    /// The coded resolution of the surfaces in the pool.
    pub fn coded_resolution(&self) -> (resolution: Resolution)
        ensures
            resolution == self.spec_coded_resolution(),
    {
        self.coded_resolution
    }

    /// Puts a surface at the end of the pool. The surface must be of the pool's coded
    /// resolution.
    pub fn add_surface(&mut self, surface: Surface)
        ensures
            final(self)@ == old(self)@.push(surface),
            final(self).spec_coded_resolution() == old(self).spec_coded_resolution(),
    {
        self.surfaces.push_back(surface)
    }

    /// Takes the surface at the front of the pool, if the pool is not empty.
    pub fn get_surface(&mut self) -> (surface: Option<Surface>)
        ensures
            final(self).spec_coded_resolution() == old(self).spec_coded_resolution(),
            old(self)@.len() == 0 ==> surface is None && final(self)@ == old(self)@,
            old(self)@.len() > 0 ==> surface == Some(old(self)@[0])
                && final(self)@ == old(self)@.skip(1),
    {
        self.surfaces.pop_front()
    }

    /// The number of free surfaces.
    pub fn num_surfaces_left(&self) -> (left: usize)
        ensures
            left == self@.len(),
    {
        self.surfaces.len()
    }
}

/// A decoded picture that the driver has mapped into memory: its layout, and its bytes.
#[derive(Debug)]
pub struct Image {
    pub format: ImageFormat,
    pub width: u16,
    pub height: u16,
    pub pitches: [u32; 3],
    pub offsets: [u32; 3],
    pub data: Vec<u8>,
}

/// Whether a plane of `rows` rows of `row_width` bytes lies within `len` bytes.
fn plane_is_within(len: usize, offset: u32, pitch: u32, row_width: u32, rows: u32) -> (within:
    bool)
    requires
        row_width <= 0x1_0000,
        rows <= 0x1_0000,
    ensures
        within == plane_fits(
            len as int,
            offset as int,
            pitch as int,
            row_width as int,
            rows as int,
        ),
{
    if rows == 0 || row_width == 0 {
        return true;
    }
    if row_width > pitch {
        return false;
    }
    let last_row: u64 = (rows - 1) as u64;
    assert(last_row * pitch <= 0x1_0000 * 0x1_0000_0000) by (nonlinear_arith)
        requires
            0 <= last_row < 0x1_0000,
            0 <= pitch < 0x1_0000_0000,
    ;
    let end: u64 = offset as u64 + last_row * (pitch as u64) + row_width as u64;
    end <= len as u64
}

impl Image {
    /// The layout of the image, if the decoder can hand it out.
    pub open spec fn spec_format(&self) -> Option<DecodedFormat> {
        decoded_format_of(self.format.fourcc)
    }

    /// The size of the image once its padding is removed.
    pub open spec fn spec_image_size(&self) -> int {
        spec_decoded_frame_size(DecodedFormat::NV12, self.width as int, self.height as int)
    }

    /// Every byte that the layout names lies within the mapped data.
    pub open spec fn readable(&self) -> bool {
        match self.spec_format() {
            Some(DecodedFormat::NV12) => nv12_readable(
                self.data@.len() as int,
                self.width as int,
                self.height as int,
                self.pitches,
                self.offsets,
            ),
            Some(DecodedFormat::I420) => i420_readable(
                self.data@.len() as int,
                self.width as int,
                self.height as int,
                self.pitches,
                self.offsets,
            ),
            None => false,
        }
    }

    /// `packed` holds the pixels of the image without padding.
    pub open spec fn holds_pixels(&self, packed: Seq<u8>) -> bool {
        match self.spec_format() {
            Some(DecodedFormat::NV12) => is_nv12_of(
                packed,
                self.data@,
                self.width as int,
                self.height as int,
                self.pitches,
                self.offsets,
            ),
            Some(DecodedFormat::I420) => is_i420_of(
                packed,
                self.data@,
                self.width as int,
                self.height as int,
                self.pitches,
                self.offsets,
            ),
            None => false,
        }
    }

    /// The number of bytes that `read` writes: the size of a packed frame of the image's
    /// dimensions.
    pub fn image_size(&self) -> (size: usize)
        requires
            self.spec_format() is Some,
            self.spec_image_size() <= usize::MAX,
        ensures
            size == self.spec_image_size(),
    {
        decoded_frame_size(DecodedFormat::NV12, self.width, self.height)
    }

    /// Whether every byte that the layout names lies within the mapped data.
    fn is_readable(&self, format: DecodedFormat) -> (readable: bool)
        requires
            self.spec_format() == Some(format),
        ensures
            readable == self.readable(),
    {
        let len = self.data.len();
        let width = self.width as u32;
        let height = self.height as u32;
        let aligned_width: u32 = (width + 1) / 2 * 2;
        let chroma_width: u32 = (width + 1) / 2;
        let chroma_rows: u32 = (height + 1) / 2;
        assert(aligned_width == align2(width as int));
        assert(chroma_width == align2(width as int) / 2);
        assert(chroma_rows == align2(height as int) / 2);
        let luma = plane_is_within(len, self.offsets[0], self.pitches[0], width, height);
        match format {
            DecodedFormat::NV12 => {
                luma && plane_is_within(
                    len,
                    self.offsets[1],
                    self.pitches[1],
                    aligned_width,
                    chroma_rows,
                )
            },
            DecodedFormat::I420 => {
                luma && plane_is_within(
                    len,
                    self.offsets[1],
                    self.pitches[1],
                    chroma_width,
                    chroma_rows,
                ) && plane_is_within(
                    len,
                    self.offsets[2],
                    self.pitches[2],
                    chroma_width,
                    chroma_rows,
                )
            },
        }
    }

    /// Copies the pixels into `buffer` without the padding of the driver's layout.
    ///
    /// Fails with `UnsupportedFormat` if the layout is neither NV12 nor I420, with
    /// `Other("size mismatch")` if `buffer` is not `image_size()` bytes long, and with
    /// `Other("image layout exceeds the mapped data")` if the driver's layout names bytes
    /// that it did not map. `buffer` is unchanged on failure.
    pub fn read(&self, buffer: &mut [u8]) -> (done: StatelessBackendResult<()>)
        ensures
            final(buffer)@.len() == old(buffer)@.len(),
            self.spec_format() is None ==> done matches Err(
                StatelessBackendError::UnsupportedFormat,
            ),
            self.spec_format() is Some && old(buffer)@.len() != self.spec_image_size() ==> (done
                matches Err(StatelessBackendError::Other(cause)) && cause@ == "size mismatch"@),
            self.spec_format() is Some && old(buffer)@.len() == self.spec_image_size()
                && !self.readable() ==> (done matches Err(StatelessBackendError::Other(cause))
                && cause@ == "image layout exceeds the mapped data"@),
            self.spec_format() is Some && old(buffer)@.len() == self.spec_image_size()
                && self.readable() ==> done is Ok && self.holds_pixels(final(buffer)@),
            done is Err ==> final(buffer)@ == old(buffer)@,
    {
        let format = match DecodedFormat::try_from(&self.format) {
            Ok(format) => format,
            Err(error) => {
                return Err(error);
            },
        };
        proof {
            crate::lemma_plane_sizes(self.width as int, self.height as int);
        }
        let aligned_width: u64 = (self.width as u64 + 1) / 2 * 2;
        let chroma_rows: u64 = (self.height as u64 + 1) / 2;
        assert(aligned_width == align2(self.width as int));
        assert(chroma_rows == align2(self.height as int) / 2);
        assert(aligned_width * chroma_rows <= 0x1_0000 * 0x1_0000) by (nonlinear_arith)
            requires
                0 <= aligned_width <= 0x1_0000,
                0 <= chroma_rows <= 0x1_0000,
        ;
        assert(self.width * self.height <= 0x1_0000 * 0x1_0000) by (nonlinear_arith)
            requires
                0 <= self.width <= 0x1_0000,
                0 <= self.height <= 0x1_0000,
        ;
        let image_size: u64 = self.width as u64 * self.height as u64 + aligned_width
            * chroma_rows;
        if buffer.len() as u64 != image_size {
            return Err(StatelessBackendError::Other("size mismatch".to_string()));
        }
        if !self.is_readable(format) {
            return Err(
                StatelessBackendError::Other("image layout exceeds the mapped data".to_string()),
            );
        }
        match format {
            DecodedFormat::NV12 => {
                nv12_copy(
                    self.data.as_slice(),
                    buffer,
                    self.width,
                    self.height,
                    self.pitches,
                    self.offsets,
                );
            },
            DecodedFormat::I420 => {
                i420_copy(
                    self.data.as_slice(),
                    buffer,
                    self.width,
                    self.height,
                    self.pitches,
                    self.offsets,
                );
            },
        }
        Ok(())
    }
}

/// What the backend needs to know of a stream to set the driver up for it. Each codec
/// provides it from its stream header.
pub trait StreamInfo {
    /// The driver's profile for the stream, if it has one.
    spec fn spec_va_profile(&self) -> Option<i32>;

    /// The surface format of the stream, if the driver has one for it.
    spec fn spec_rt_format(&self) -> Option<u32>;

    /// The number of surfaces that decoding the stream takes.
    spec fn spec_min_num_surfaces(&self) -> usize;

    /// The width and height of the surfaces that decoding the stream takes.
    spec fn spec_coded_size(&self) -> (u32, u32);

    /// The top left and the bottom right corner of the part of a frame that is shown.
    spec fn spec_visible_rect(&self) -> ((u32, u32), (u32, u32));

    /// Returns the driver's profile for the stream.
    fn va_profile(&self) -> (profile: Result<i32, String>)
        ensures
            match profile {
                Ok(known) => self.spec_va_profile() == Some(known),
                Err(_) => self.spec_va_profile() is None,
            },
    ;

    /// Returns the surface format of the stream.
    fn rt_format(&self) -> (rt_format: Result<u32, String>)
        ensures
            match rt_format {
                Ok(known) => self.spec_rt_format() == Some(known),
                Err(_) => self.spec_rt_format() is None,
            },
    ;

    /// Returns the minimum number of surfaces required to decode the stream.
    fn min_num_surfaces(&self) -> (count: usize)
        ensures
            count == self.spec_min_num_surfaces(),
    ;

    /// Returns the coded size of the surfaces required to decode the stream.
    fn coded_size(&self) -> (size: (u32, u32))
        ensures
            size == self.spec_coded_size(),
    ;

    /// Returns the visible rectangle within the coded size for the stream.
    fn visible_rect(&self) -> (rect: ((u32, u32), (u32, u32)))
        ensures
            rect == self.spec_visible_rect(),
    ;
}

/// What a stream asks of the driver, as worked out from its header.
#[derive(Copy, Clone, Debug, PartialEq, Eq, Structural)]
pub struct StreamParams {
    pub profile: i32,
    pub rt_format: u32,
    pub coded_resolution: Resolution,
    pub display_resolution: Resolution,
    pub num_surfaces: u32,
    pub format_map: FormatMap,
}

/// The stream's demands can be met: it has a profile and a surface format, a pixel layout
/// is known for the format, its coded size and its surface count fit the driver's
/// integers, and its visible rectangle is not inverted.
pub open spec fn stream_is_acceptable<S: StreamInfo>(hdr: &S, requested: Option<FormatMap>)
    -> bool {
    &&& hdr.spec_va_profile() is Some
    &&& hdr.spec_rt_format() is Some
    &&& spec_choose_format_map(hdr.spec_rt_format().unwrap(), requested) is Some
    &&& hdr.spec_coded_size().0 <= i32::MAX
    &&& hdr.spec_coded_size().1 <= i32::MAX
    &&& hdr.spec_min_num_surfaces() <= u32::MAX
    &&& hdr.spec_visible_rect().0.0 <= hdr.spec_visible_rect().1.0
    &&& hdr.spec_visible_rect().0.1 <= hdr.spec_visible_rect().1.1
}

/// What the stream asks of the driver.
pub open spec fn spec_stream_params<S: StreamInfo>(hdr: &S, requested: Option<FormatMap>)
    -> StreamParams
    recommends
        stream_is_acceptable(hdr, requested),
{
    StreamParams {
        profile: hdr.spec_va_profile().unwrap(),
        rt_format: hdr.spec_rt_format().unwrap(),
        coded_resolution: Resolution {
            width: hdr.spec_coded_size().0,
            height: hdr.spec_coded_size().1,
        },
        display_resolution: Resolution {
            width: (hdr.spec_visible_rect().1.0 - hdr.spec_visible_rect().0.0) as u32,
            height: (hdr.spec_visible_rect().1.1 - hdr.spec_visible_rect().0.1) as u32,
        },
        num_surfaces: hdr.spec_min_num_surfaces() as u32,
        format_map: spec_choose_format_map(hdr.spec_rt_format().unwrap(), requested).unwrap(),
    }
}

/// Works out what the stream asks of the driver.
///
/// Fails with `UnsupportedFormat` if the preference list has no entry for the stream's
/// surface format, and with `Other` if the header names no profile or no surface format, if
/// the coded size or the surface count do not fit the driver's integers, or if the visible
/// rectangle is inverted.
pub fn stream_params<S: StreamInfo>(hdr: &S, requested: Option<&FormatMap>) -> (params:
    StatelessBackendResult<StreamParams>)
    ensures
        match params {
            Ok(params) => stream_is_acceptable(hdr, option_copied(requested)) && params
                == spec_stream_params(hdr, option_copied(requested)),
            Err(error) => !stream_is_acceptable(hdr, option_copied(requested)) && (error
                is UnsupportedFormat <==> hdr.spec_va_profile() is Some && hdr.spec_rt_format()
                is Some && spec_choose_format_map(
                hdr.spec_rt_format().unwrap(),
                option_copied(requested),
            ) is None) && (error is UnsupportedFormat || error is Other),
        },
{
    let profile = match hdr.va_profile() {
        Ok(profile) => profile,
        Err(cause) => {
            return Err(StatelessBackendError::Other(cause));
        },
    };
    let rt_format = match hdr.rt_format() {
        Ok(rt_format) => rt_format,
        Err(cause) => {
            return Err(StatelessBackendError::Other(cause));
        },
    };
    let format_map = match choose_format_map(rt_format, requested) {
        Some(entry) => entry,
        None => {
            return Err(StatelessBackendError::UnsupportedFormat);
        },
    };
    let (width, height) = hdr.coded_size();
    if width > i32::MAX as u32 || height > i32::MAX as u32 {
        return Err(
            StatelessBackendError::Other("coded size out of the driver's range".to_string()),
        );
    }
    let min_num_surfaces = hdr.min_num_surfaces();
    if min_num_surfaces > u32::MAX as usize {
        return Err(
            StatelessBackendError::Other("surface count out of the driver's range".to_string()),
        );
    }
    let visible_rect = hdr.visible_rect();
    if visible_rect.0.0 > visible_rect.1.0 || visible_rect.0.1 > visible_rect.1.1 {
        return Err(StatelessBackendError::Other("inverted visible rectangle".to_string()));
    }
    Ok(
        StreamParams {
            profile,
            rt_format,
            coded_resolution: Resolution { width, height },
            display_resolution: Resolution {
                width: visible_rect.1.0 - visible_rect.0.0,
                height: visible_rect.1.1 - visible_rect.0.1,
            },
            num_surfaces: min_num_surfaces as u32,
            format_map,
        },
    )
}

/// The driver. The embedding program implements it over the hardware; every method stands
/// for one request to the driver.
///
/// No method promises anything of what it returns. The backend is verified for every answer
/// that a driver can give, and tests what it is handed where it relies on it.
pub trait Display {
    /// Reports the value of the configuration attribute `attribute_type` for `profile` and
    /// `entrypoint`.
    fn get_config_attributes(&mut self, profile: i32, entrypoint: u32, attribute_type: u32)
        -> Result<u32, String>;

    /// Lists the image formats that surfaces can be mapped in.
    fn query_image_formats(&mut self) -> Result<Vec<ImageFormat>, String>;

    /// Creates a configuration for `profile` and `entrypoint` with the surface format
    /// `rt_format`, and returns its identifier.
    fn create_config(&mut self, rt_format: u32, profile: i32, entrypoint: u32) -> Result<
        u32,
        String,
    >;

    /// Ends the use of a configuration.
    fn destroy_config(&mut self, config: u32);

    /// Allocates `num_surfaces` surfaces.
    fn create_surfaces(
        &mut self,
        rt_format: u32,
        va_fourcc: u32,
        width: u32,
        height: u32,
        num_surfaces: u32,
    ) -> Result<Vec<Surface>, String>;

    /// Frees a surface.
    fn destroy_surface(&mut self, surface: Surface);

    /// Creates a context that renders into `surfaces` with the configuration `config`, and
    /// returns its identifier.
    fn create_context(
        &mut self,
        config: u32,
        coded_width: i32,
        coded_height: i32,
        surfaces: &Vec<Surface>,
    ) -> Result<u32, String>;

    /// Ends the backend's use of a context. Pictures that were submitted in it complete.
    fn destroy_context(&mut self, context: u32);

    /// Starts the picture that was prepared for `surface`.
    fn begin_picture(&mut self, context: u32, surface: u32) -> Result<(), String>;

    /// Hands the buffers of the picture that was prepared for `surface` to the hardware.
    fn render_picture(&mut self, context: u32, surface: u32) -> Result<(), String>;

    /// Ends the picture. The hardware completes it on its own time.
    fn end_picture(&mut self, context: u32, surface: u32) -> Result<(), String>;

    /// Blocks until no operation is pending on `surface`.
    fn sync_surface(&mut self, surface: u32) -> Result<(), String>;

    /// Reports the status of `surface` without blocking.
    fn query_surface_status(&mut self, surface: u32) -> Result<u32, String>;

    /// Maps `width` by `height` pixels of `surface` into memory, in the layout `format`.
    fn create_image(&mut self, surface: u32, format: &ImageFormat, width: u32, height: u32)
        -> Result<Image, String>;
}

/// Frees every surface of `surfaces`.
fn destroy_surfaces<D: Display>(display: &mut D, surfaces: Vec<Surface>) {
    let mut rest = surfaces;
    while rest.len() > 0
        decreases rest.len(),
    {
        if let Some(surface) = rest.pop() {
            display.destroy_surface(surface);
        }
    }
}

/// Frees every surface that is left in `pool`.
fn destroy_pool<D: Display>(display: &mut D, pool: SurfacePoolHandle) {
    let mut pool = pool;
    while pool.num_surfaces_left() > 0
        decreases pool@.len(),
    {
        if let Some(surface) = pool.get_surface() {
            display.destroy_surface(surface);
        }
    }
}

/// The formats that a stream of surface format `rt_format` can be decoded into: asks the
/// driver whether it offers the format for `profile` and `entrypoint`, and keeps the entries
/// of the preference list for the format whose layout is among `image_formats`.
///
/// Fails with `Other` if the driver fails, and with `UnsupportedFormat` if it does not offer
/// the surface format.
pub fn supported_formats_for_rt_format<D: Display>(
    display: &mut D,
    rt_format: u32,
    profile: i32,
    entrypoint: u32,
    image_formats: &Vec<ImageFormat>,
) -> (formats: StatelessBackendResult<Vec<FormatMap>>)
    ensures
        formats matches Ok(list) ==> list@ == spec_supported_formats(rt_format, image_formats@),
        formats matches Err(error) ==> error is Other || error is UnsupportedFormat,
{
    let attribute = match display.get_config_attributes(
        profile,
        entrypoint,
        VA_CONFIG_ATTRIB_RT_FORMAT,
    ) {
        Ok(attribute) => attribute,
        Err(cause) => {
            return Err(StatelessBackendError::Other(cause));
        },
    };
    select_supported_formats(rt_format, attribute, image_formats)
}

/// Whether the status that the driver reports for a surface says that no operation is
/// pending on it.
pub fn surface_is_ready(status: Result<u32, String>) -> (ready: StatelessBackendResult<bool>)
    ensures
        match status {
            Ok(status) => ready == Ok::<bool, StatelessBackendError>(status == VA_SURFACE_READY),
            Err(cause) => ready == Err::<bool, StatelessBackendError>(
                StatelessBackendError::Other(cause),
            ),
        },
{
    match status {
        Ok(status) => Ok(status == VA_SURFACE_READY),
        Err(cause) => Err(StatelessBackendError::Other(cause)),
    }
}

/// How far the rendering of a picture has come.
#[derive(Debug)]
pub enum PictureState {
    /// The driver has been seen to be done with the picture. This state is final.
    Ready(Picture),
    /// The picture was submitted and is not known to be complete.
    Pending(Picture),
    /// The picture has been moved out. No handle that can still be reached is in this
    /// state.
    Invalid,
}

impl PictureState {
    /// The picture, in whichever state it is.
    pub open spec fn picture(self) -> Picture
        recommends
            !(self is Invalid),
    {
        match self {
            PictureState::Ready(picture) => picture,
            PictureState::Pending(picture) => picture,
            PictureState::Invalid => arbitrary(),
        }
    }

    /// Ends the picture and gives its surface back. A pending picture is waited for first;
    /// if the wait fails, the surface is freed and the error of the driver is returned.
    pub fn try_into<D: Display>(self, display: &mut D) -> (surface: StatelessBackendResult<
        Surface,
    >)
        requires
            !(self is Invalid),
        ensures
            self is Ready ==> surface == Ok::<Surface, StatelessBackendError>(
                self.picture().surface,
            ),
            surface matches Ok(surface) ==> surface == self.picture().surface,
            surface matches Err(error) ==> error is Other,
    {
        match self {
            PictureState::Ready(picture) => Ok(picture.take_surface()),
            PictureState::Pending(picture) => {
                let surface = picture.take_surface();
                match display.sync_surface(surface.id()) {
                    Ok(()) => Ok(surface),
                    Err(cause) => {
                        display.destroy_surface(surface);
                        Err(StatelessBackendError::Other(cause))
                    },
                }
            },
            PictureState::Invalid => Err(StatelessBackendError::ResourceNotReady),
        }
    }
}

/// Frees the surface of a picture without waiting for the picture.
fn free_picture<D: Display>(display: &mut D, state: PictureState) {
    match state {
        PictureState::Ready(picture) => display.destroy_surface(picture.take_surface()),
        PictureState::Pending(picture) => display.destroy_surface(picture.take_surface()),
        PictureState::Invalid => {},
    }
}

/// What is known of a stream once its header has been seen, and what was set up in the
/// driver to decode it.
#[derive(Debug)]
pub struct ParsedStreamMetadata {
    /// The context that pictures are submitted in.
    pub context: u32,
    /// The configuration that the context was created with.
    pub config: u32,
    /// The free surfaces. Surfaces are costly to allocate and are used again.
    pub surface_pool: SurfacePoolHandle,
    /// Tells this pool from every pool before it. A frame gives its surface back only to
    /// the pool that it took it from.
    pub pool_id: u64,
    /// The number of surfaces that were allocated for the stream.
    pub min_num_surfaces: usize,
    /// The resolution of the part of a frame that is shown.
    pub display_resolution: Resolution,
    /// The layout that surfaces are mapped in.
    pub map_format: ImageFormat,
    /// The surface format of the stream.
    pub rt_format: u32,
    /// The driver's profile for the stream.
    pub profile: i32,
}

impl ParsedStreamMetadata {
    /// The metadata is what `open` sets up for `params`, with the pool `pool_id`.
    pub open spec fn is_opened_for(&self, params: StreamParams, pool_id: u64) -> bool {
        &&& self.surface_pool.spec_coded_resolution() == params.coded_resolution
        &&& self.surface_pool@.len() == params.num_surfaces
        &&& self.pool_id == pool_id
        &&& self.min_num_surfaces == params.num_surfaces
        &&& self.display_resolution == params.display_resolution
        &&& self.map_format.fourcc == params.format_map.va_fourcc
        &&& self.rt_format == params.rt_format
        &&& self.profile == params.profile
    }

    /// The metadata describes the same stream, set up in the same way, as `other`. Only
    /// the surfaces that are free may differ.
    pub open spec fn is_same_stream(&self, other: ParsedStreamMetadata) -> bool {
        &&& self.context == other.context
        &&& self.config == other.config
        &&& self.surface_pool.spec_coded_resolution() == other.surface_pool.spec_coded_resolution()
        &&& self.pool_id == other.pool_id
        &&& self.min_num_surfaces == other.min_num_surfaces
        &&& self.display_resolution == other.display_resolution
        &&& self.map_format == other.map_format
        &&& self.rt_format == other.rt_format
        &&& self.profile == other.profile
    }
}

/// The state of the input stream: either nothing is known of it yet, or its header has been
/// seen and the driver is set up to decode it.
#[derive(Debug)]
pub enum StreamMetadataState {
    /// The metadata for the current stream has not yet been parsed.
    Unparsed,
    /// The metadata for the current stream has been parsed and the driver is set up.
    Parsed(ParsedStreamMetadata),
}

/// The text of the error for a request that needs the stream's metadata before it is there.
pub open spec fn not_parsed_message() -> Seq<char> {
    "Stream metadata not parsed yet"@
}

impl StreamMetadataState {
    /// Returns the parsed metadata, or fails with `Other` if the stream's header has not
    /// been seen yet.
    pub fn get_parsed(&self) -> (parsed: StatelessBackendResult<&ParsedStreamMetadata>)
        ensures
            match *self {
                StreamMetadataState::Parsed(metadata) => parsed == Ok::<
                    &ParsedStreamMetadata,
                    StatelessBackendError,
                >(&metadata),
                StreamMetadataState::Unparsed => parsed matches Err(
                    StatelessBackendError::Other(cause),
                ) && cause@ == not_parsed_message(),
            },
    {
        match self {
            StreamMetadataState::Unparsed => Err(
                StatelessBackendError::Other("Stream metadata not parsed yet".to_string()),
            ),
            StreamMetadataState::Parsed(parsed_metadata) => Ok(parsed_metadata),
        }
    }

    /// The formats that the stream can be decoded into without conversion: the entries of
    /// the preference list for the stream's surface format that the driver can map.
    ///
    /// Fails with `Other` if the stream's header has not been seen yet or if the driver
    /// fails, and with `UnsupportedFormat` if the driver does not offer the stream's
    /// surface format.
    pub fn supported_formats_for_stream<D: Display>(&self, display: &mut D) -> (formats:
        StatelessBackendResult<Vec<DecodedFormat>>)
        ensures
            *self is Unparsed ==> (formats matches Err(StatelessBackendError::Other(cause))
                && cause@ == not_parsed_message()),
            formats matches Ok(list) ==> (*self matches StreamMetadataState::Parsed(metadata)
                && exists|image_formats: Seq<ImageFormat>|
                list@ == #[trigger] decoded_formats(
                    spec_supported_formats(metadata.rt_format, image_formats),
                )),
            formats matches Err(error) ==> error is Other || error is UnsupportedFormat,
    {
        let metadata = self.get_parsed()?;
        let image_formats = match display.query_image_formats() {
            Ok(image_formats) => image_formats,
            Err(cause) => {
                return Err(StatelessBackendError::Other(cause));
            },
        };
        let formats = supported_formats_for_rt_format(
            display,
            metadata.rt_format,
            metadata.profile,
            VA_ENTRYPOINT_VLD,
            &image_formats,
        )?;
        Ok(decoded_formats_of(&formats))
    }

    /// Sets the driver up for the stream that `hdr` describes, or sets it up anew, and
    /// replaces the surface pool by a new one, `pool_id`.
    ///
    /// The stream is decoded into the layout of `format_map`, if that is given and is for
    /// the stream's surface format, else into the first layout of the preference list for
    /// that format.
    ///
    /// Fails, and changes nothing, if the stream is not acceptable (see `stream_params`), if
    /// the driver does not offer the surface format or cannot map the layout
    /// (`UnsupportedFormat`), or if the driver fails to allocate (`Other`).
    pub fn open<S: StreamInfo, D: Display>(
        &mut self,
        display: &mut D,
        hdr: &S,
        format_map: Option<&FormatMap>,
        pool_id: u64,
    ) -> (opened: StatelessBackendResult<()>)
        ensures
            opened is Err ==> *final(self) == *old(self),
            opened is Ok ==> stream_is_acceptable(hdr, option_copied(format_map))
                && (*final(self) matches StreamMetadataState::Parsed(metadata)
                && metadata.is_opened_for(
                spec_stream_params(hdr, option_copied(format_map)),
                pool_id,
            )),
            !stream_is_acceptable(hdr, option_copied(format_map)) ==> opened is Err,
            hdr.spec_va_profile() is Some && hdr.spec_rt_format() is Some
                && spec_choose_format_map(
                hdr.spec_rt_format().unwrap(),
                option_copied(format_map),
            ) is None ==> opened matches Err(StatelessBackendError::UnsupportedFormat),
            opened matches Err(error) ==> error is Other || error is UnsupportedFormat,
    {
        let params = stream_params(hdr, format_map)?;
        let attribute = match display.get_config_attributes(
            params.profile,
            VA_ENTRYPOINT_VLD,
            VA_CONFIG_ATTRIB_RT_FORMAT,
        ) {
            Ok(attribute) => attribute,
            Err(cause) => {
                return Err(StatelessBackendError::Other(cause));
            },
        };
        // A driver that lacks the surface format is not asked for its image formats.
        if !is_rt_format_offered(attribute, params.rt_format) {
            return Err(StatelessBackendError::UnsupportedFormat);
        }
        let image_formats = match display.query_image_formats() {
            Ok(image_formats) => image_formats,
            Err(cause) => {
                return Err(StatelessBackendError::Other(cause));
            },
        };
        let map_format = select_map_format(
            params.rt_format,
            params.format_map.va_fourcc,
            attribute,
            &image_formats,
        )?;
        proof {
            lemma_first_with_fourcc(image_formats@, params.format_map.va_fourcc);
        }
        let config = match display.create_config(
            params.rt_format,
            params.profile,
            VA_ENTRYPOINT_VLD,
        ) {
            Ok(config) => config,
            Err(cause) => {
                return Err(StatelessBackendError::Other(cause));
            },
        };
        let surfaces = match display.create_surfaces(
            params.rt_format,
            map_format.fourcc,
            params.coded_resolution.width,
            params.coded_resolution.height,
            params.num_surfaces,
        ) {
            Ok(surfaces) => surfaces,
            Err(cause) => {
                display.destroy_config(config);
                return Err(StatelessBackendError::Other(cause));
            },
        };
        if let Err(error) = accept_surface_count(surfaces.len(), params.num_surfaces) {
            destroy_surfaces(display, surfaces);
            display.destroy_config(config);
            return Err(error);
        }
        let context = match display.create_context(
            config,
            params.coded_resolution.width as i32,
            params.coded_resolution.height as i32,
            &surfaces,
        ) {
            Ok(context) => context,
            Err(cause) => {
                destroy_surfaces(display, surfaces);
                display.destroy_config(config);
                return Err(StatelessBackendError::Other(cause));
            },
        };
        let surface_pool = SurfacePoolHandle::new(surfaces, params.coded_resolution);
        let mut state = StreamMetadataState::Parsed(
            ParsedStreamMetadata {
                context,
                config,
                surface_pool,
                pool_id,
                min_num_surfaces: params.num_surfaces as usize,
                display_resolution: params.display_resolution,
                map_format,
                rt_format: params.rt_format,
                profile: params.profile,
            },
        );
        std::mem::swap(self, &mut state);
        if let StreamMetadataState::Parsed(previous) = state {
            display.destroy_context(previous.context);
            display.destroy_config(previous.config);
            let mut pool = previous.surface_pool;
            destroy_pool(display, pool);
        }
        Ok(())
    }
}

/// A decoded frame in the backend: the picture, which is pending or ready, and what is
/// needed to map it and to give its surface back.
///
/// The frame is shared by the `DecodedHandle`s that refer to it. It lives in the backend,
/// which counts them, so that all of them see the picture become ready and the surface is
/// given back once, when the last of them is released.
#[derive(Debug)]
pub struct GenericBackendHandle {
    /// The picture and how far its rendering has come.
    pub state: PictureState,
    /// The coded resolution of the stream when this frame was submitted.
    pub coded_resolution: Resolution,
    /// The resolution of the part of the frame that is shown.
    pub display_resolution: Resolution,
    /// The layout that the surface is mapped in.
    pub map_format: ImageFormat,
    /// The pool that the surface was taken from.
    pub surface_pool: u64,
    /// The number of `DecodedHandle`s that refer to the frame.
    pub holders: u64,
}

impl GenericBackendHandle {
    /// The frame can be reached: its picture has not been moved out, and a handle refers
    /// to it.
    pub open spec fn wf(&self) -> bool {
        !(self.state is Invalid) && self.holders >= 1
    }

    /// The frame with its picture known to be complete.
    pub open spec fn made_ready(self) -> GenericBackendHandle {
        GenericBackendHandle { state: PictureState::Ready(self.state.picture()), ..self }
    }

    /// Submits `picture` to the driver and creates the pending frame for it, with one
    /// holder. If the driver fails, the surface is freed and the error is returned.
    pub fn new<D: Display>(display: &mut D, picture: Picture, metadata: &ParsedStreamMetadata)
        -> (handle: StatelessBackendResult<GenericBackendHandle>)
        ensures
            handle matches Ok(handle) ==> handle == (GenericBackendHandle {
                state: PictureState::Pending(picture),
                coded_resolution: metadata.surface_pool.spec_coded_resolution(),
                display_resolution: metadata.display_resolution,
                map_format: metadata.map_format,
                surface_pool: metadata.pool_id,
                holders: 1,
            }),
            handle matches Err(error) ==> error is Other,
    {
        let surface = picture.surface_id();
        let submitted = match display.begin_picture(metadata.context, surface) {
            Ok(()) => match display.render_picture(metadata.context, surface) {
                Ok(()) => display.end_picture(metadata.context, surface),
                Err(cause) => Err(cause),
            },
            Err(cause) => Err(cause),
        };
        match submitted {
            Ok(()) => Ok(
                GenericBackendHandle {
                    state: PictureState::Pending(picture),
                    coded_resolution: metadata.surface_pool.coded_resolution(),
                    display_resolution: metadata.display_resolution,
                    map_format: metadata.map_format,
                    surface_pool: metadata.pool_id,
                    holders: 1,
                },
            ),
            Err(cause) => {
                display.destroy_surface(picture.take_surface());
                Err(StatelessBackendError::Other(cause))
            },
        }
    }

    /// Records that the driver has been seen to be done with the picture.
    pub fn mark_ready(&mut self)
        requires
            !(old(self).state is Invalid),
        ensures
            *final(self) == old(self).made_ready(),
    {
        let mut state = PictureState::Invalid;
        std::mem::swap(&mut self.state, &mut state);
        self.state = match state {
            PictureState::Pending(picture) => PictureState::Ready(picture),
            other => other,
        };
    }

    /// Takes in the driver's answer to a blocking wait on a pending picture: the picture
    /// is ready if the wait succeeded, else the frame is unchanged and the driver's error
    /// is returned.
    pub fn complete_sync(&mut self, outcome: Result<(), String>) -> (synced:
        StatelessBackendResult<()>)
        requires
            !(old(self).state is Invalid),
        ensures
            match outcome {
                Ok(()) => synced is Ok && *final(self) == old(self).made_ready(),
                Err(cause) => synced == Err::<(), StatelessBackendError>(
                    StatelessBackendError::Other(cause),
                ) && *final(self) == *old(self),
            },
    {
        match outcome {
            Ok(()) => {
                self.mark_ready();
                Ok(())
            },
            Err(cause) => Err(StatelessBackendError::Other(cause)),
        }
    }

    /// Blocks until the picture is ready. A picture that is ready stays so, and the driver
    /// is not asked again.
    pub fn sync<D: Display>(&mut self, display: &mut D) -> (synced: StatelessBackendResult<()>)
        requires
            !(old(self).state is Invalid),
        ensures
            old(self).state is Ready ==> synced is Ok && *final(self) == *old(self),
            synced is Ok ==> *final(self) == old(self).made_ready(),
            synced matches Err(error) ==> error is Other && *final(self) == *old(self),
    {
        let pending = match &self.state {
            PictureState::Pending(picture) => Some(picture.surface_id()),
            _ => None,
        };
        match pending {
            Some(surface) => {
                let outcome = display.sync_surface(surface);
                self.complete_sync(outcome)
            },
            None => Ok(()),
        }
    }

    /// Maps the picture into memory, in the frame's layout and display resolution, after
    /// waiting for it to be ready.
    ///
    /// Fails with `UnsupportedFormat` if the layout is neither NV12 nor I420, and with
    /// `Other` if the driver fails.
    pub fn image<D: Display>(&mut self, display: &mut D) -> (image: StatelessBackendResult<
        Image,
    >)
        requires
            !(old(self).state is Invalid),
        ensures
            image is Ok ==> *final(self) == old(self).made_ready() && decoded_format_of(
                old(self).map_format.fourcc,
            ) is Some,
            *final(self) == *old(self) || *final(self) == old(self).made_ready(),
            image matches Err(error) ==> error is Other || error is UnsupportedFormat,
            old(self).state is Ready && decoded_format_of(old(self).map_format.fourcc) is None
                ==> image matches Err(StatelessBackendError::UnsupportedFormat),
    {
        self.sync(display)?;
        if let Err(error) = DecodedFormat::try_from(&self.map_format) {
            return Err(error);
        }
        let surface = self.surface_id();
        match display.create_image(
            surface,
            &self.map_format,
            self.display_resolution.width,
            self.display_resolution.height,
        ) {
            Ok(image) => Ok(image),
            Err(cause) => Err(StatelessBackendError::Other(cause)),
        }
    }

    /// Returns the picture of this frame once it is ready.
    pub fn picture(&self) -> (picture: Option<&Picture>)
        requires
            !(self.state is Invalid),
        ensures
            match self.state {
                PictureState::Ready(ready) => picture == Some(&ready),
                _ => picture is None,
            },
    {
        match &self.state {
            PictureState::Ready(picture) => Some(picture),
            _ => None,
        }
    }

    /// Returns the timestamp of this frame.
    pub fn timestamp(&self) -> (timestamp: u64)
        requires
            !(self.state is Invalid),
        ensures
            timestamp == self.state.picture().timestamp,
    {
        match &self.state {
            PictureState::Ready(picture) => picture.timestamp(),
            PictureState::Pending(picture) => picture.timestamp(),
            PictureState::Invalid => 0,
        }
    }

    /// Returns the identifier of the surface that holds this frame.
    pub fn surface_id(&self) -> (id: u32)
        requires
            !(self.state is Invalid),
        ensures
            id == self.state.picture().surface.id,
    {
        match &self.state {
            PictureState::Ready(picture) => picture.surface_id(),
            PictureState::Pending(picture) => picture.surface_id(),
            PictureState::Invalid => 0,
        }
    }

    /// Whether the picture is ready, without blocking. The driver is asked only while
    /// the picture is pending.
    pub fn is_va_ready<D: Display>(&self, display: &mut D) -> (ready: StatelessBackendResult<
        bool,
    >)
        requires
            !(self.state is Invalid),
        ensures
            self.state is Ready ==> ready == Ok::<bool, StatelessBackendError>(true),
            ready matches Err(error) ==> error is Other,
    {
        match &self.state {
            PictureState::Ready(_) => Ok(true),
            PictureState::Pending(picture) => {
                let status = display.query_surface_status(picture.surface_id());
                surface_is_ready(status)
            },
            PictureState::Invalid => Ok(true),
        }
    }

    /// The frame with `holders` handles that refer to it.
    pub open spec fn held_by(self, holders: u64) -> GenericBackendHandle {
        GenericBackendHandle { holders, ..self }
    }

    /// Seeing a frame ready twice is seeing it ready once.
    pub proof fn lemma_made_ready_is_idempotent(self)
        requires
            !(self.state is Invalid),
        ensures
            self.made_ready().made_ready() == self.made_ready(),
            self.made_ready().state is Ready,
            self.state is Ready ==> self.made_ready() == self,
    {
    }
}

/// Where the backend is in the negotiation of the output format with the client.
///
/// `T` is what the decoder passes from `Possible` on to `Negotiated`: the properties of the
/// stream as they were parsed.
pub enum NegotiationStatus<T> {
    /// No property of the stream has been parsed yet.
    NonNegotiated,
    /// The properties of the stream are known, and the client may query and change the
    /// output format.
    Possible(T),
    /// The stream is being decoded, and the client cannot change the output format.
    Negotiated,
}

impl<T> Default for NegotiationStatus<T> {
    fn default() -> (status: Self)
        ensures
            status is NonNegotiated,
    {
        NegotiationStatus::NonNegotiated
    }
}

impl<T> NegotiationStatus<T> {
    /// The name of the state.
    pub open spec fn spec_name(&self) -> Seq<char> {
        match self {
            NegotiationStatus::NonNegotiated => "NonNegotiated"@,
            NegotiationStatus::Possible(_) => "Possible"@,
            NegotiationStatus::Negotiated => "Negotiated"@,
        }
    }

    /// The name of the state, without what it carries.
    pub fn name(&self) -> (name: String)
        ensures
            name@ == self.spec_name(),
    {
        match self {
            NegotiationStatus::NonNegotiated => "NonNegotiated".to_string(),
            NegotiationStatus::Possible(_) => "Possible".to_string(),
            NegotiationStatus::Negotiated => "Negotiated".to_string(),
        }
    }
}

/// A handle to a decoded frame.
///
/// Several handles can refer to one frame. The frame itself lives in the backend, and what
/// can change of it, whether it is ready, is asked of the backend. A handle is given back
/// with `release_handle`; the last one to be given back returns the surface to its pool.
#[derive(Debug)]
pub struct DecodedHandle {
    /// The frame in the backend that the handle refers to.
    pub inner: u64,
    /// The timestamp that the frame was submitted with.
    pub timestamp: u64,
    /// The resolution of the part of the frame that is shown.
    pub display_resolution: Resolution,
    /// Tells the display order of this frame in comparison with other frames.
    pub display_order: Option<u64>,
}

impl DecodedHandle {
    /// Creates a handle to the frame `inner`, with no display order yet.
    pub fn new(inner: u64, timestamp: u64, display_resolution: Resolution) -> (handle:
        DecodedHandle)
        ensures
            handle == (DecodedHandle {
                inner,
                timestamp,
                display_resolution,
                display_order: None,
            }),
    {
        DecodedHandle { inner, timestamp, display_resolution, display_order: None }
    }

    /// The display order of the frame, if the frame is shown.
    pub fn display_order(&self) -> (order: Option<u64>)
        ensures
            order == self.display_order,
    {
        self.display_order
    }

    /// Sets the display order of the frame.
    pub fn set_display_order(&mut self, display_order: u64)
        ensures
            *final(self) == (DecodedHandle { display_order: Some(display_order), ..*old(self) }),
    {
        self.display_order = Some(display_order)
    }

    /// The resolution of the part of the frame that is shown.
    pub fn display_resolution(&self) -> (resolution: Resolution)
        ensures
            resolution == self.display_resolution,
    {
        self.display_resolution
    }

    /// The timestamp that the frame was submitted with.
    pub fn timestamp(&self) -> (timestamp: u64)
        ensures
            timestamp == self.timestamp,
    {
        self.timestamp
    }
}

/// The text of the error for a format that is asked for while none can be negotiated,
/// before the name of the state.
pub open spec fn negotiation_not_possible_message() -> Seq<char> {
    "Negotiation is not possible at this stage "@
}

/// The frames among `handles` whose surface belongs to the pool `pool`.
pub open spec fn live_in(handles: Map<u64, GenericBackendHandle>, pool: u64) -> Set<u64> {
    Set::new(|id: u64| handles.contains_key(id) && handles[id].surface_pool == pool)
}

/// No more frames hold a surface of a pool than there are frames.
pub proof fn lemma_live_is_finite(handles: Map<u64, GenericBackendHandle>, pool: u64)
    requires
        handles.dom().finite(),
    ensures
        live_in(handles, pool).finite(),
{
    vstd::set_lib::lemma_len_subset(live_in(handles, pool), handles.dom());
}

/// A new frame adds one to the frames of its pool, and none to those of another.
pub proof fn lemma_live_after_insert(
    handles: Map<u64, GenericBackendHandle>,
    id: u64,
    handle: GenericBackendHandle,
    pool: u64,
)
    requires
        handles.dom().finite(),
        !handles.contains_key(id),
    ensures
        live_in(handles.insert(id, handle), pool).len() == live_in(handles, pool).len()
            + (if handle.surface_pool
            == pool {
            1nat
        } else {
            0nat
        }),
{
    lemma_live_is_finite(handles, pool);
    if handle.surface_pool == pool {
        assert(live_in(handles.insert(id, handle), pool) =~= live_in(handles, pool).insert(id));
    } else {
        assert(live_in(handles.insert(id, handle), pool) =~= live_in(handles, pool));
    }
}

/// A change to a frame that keeps its pool leaves the frames of every pool as they are.
pub proof fn lemma_live_after_update(
    handles: Map<u64, GenericBackendHandle>,
    id: u64,
    handle: GenericBackendHandle,
    pool: u64,
)
    requires
        handles.contains_key(id),
        handles[id].surface_pool == handle.surface_pool,
    ensures
        live_in(handles.insert(id, handle), pool) == live_in(handles, pool),
{
    assert(live_in(handles.insert(id, handle), pool) =~= live_in(handles, pool));
}

/// Putting a frame back under its identifier, with its pool unchanged, leaves the frames of
/// every pool as they were before it was taken out.
pub proof fn lemma_live_restored(
    handles: Map<u64, GenericBackendHandle>,
    id: u64,
    frame: GenericBackendHandle,
)
    requires
        handles.contains_key(id),
        handles[id].surface_pool == frame.surface_pool,
    ensures
        handles.remove(id).insert(id, frame) == handles.insert(id, frame),
        forall|pool: u64| #[trigger]
            live_in(handles.insert(id, frame), pool) == live_in(handles, pool),
{
    assert(handles.remove(id).insert(id, frame) =~= handles.insert(id, frame));
    assert forall|pool: u64| #[trigger]
        live_in(handles.insert(id, frame), pool) == live_in(handles, pool) by {
        lemma_live_after_update(handles, id, frame, pool);
    }
}

/// A frame that goes takes one from the frames of its pool, and none from those of
/// another.
pub proof fn lemma_live_after_remove(
    handles: Map<u64, GenericBackendHandle>,
    id: u64,
    pool: u64,
)
    requires
        handles.dom().finite(),
        handles.contains_key(id),
    ensures
        live_in(handles, pool).len() == live_in(handles.remove(id), pool).len()
            + (if handles[id].surface_pool
            == pool {
            1nat
        } else {
            0nat
        }),
{
    lemma_live_is_finite(handles, pool);
    if handles[id].surface_pool == pool {
        assert(live_in(handles.remove(id), pool) =~= live_in(handles, pool).remove(id));
    } else {
        assert(live_in(handles.remove(id), pool) =~= live_in(handles, pool));
    }
}

/// No frame holds a surface of a pool that none was taken from.
pub proof fn lemma_live_of_new_pool(handles: Map<u64, GenericBackendHandle>, pool: u64)
    requires
        forall|id: u64| handles.contains_key(id) ==> (#[trigger] handles[id]).surface_pool != pool,
    ensures
        live_in(handles, pool).len() == 0,
{
    assert(live_in(handles, pool) =~= Set::empty());
}

/// The number of `handles` that refer to the frame `id`.
pub open spec fn count_named(handles: Seq<DecodedHandle>, id: u64) -> nat
    decreases handles.len(),
{
    if handles.len() == 0 {
        0
    } else {
        count_named(handles.drop_last(), id) + if handles.last().inner == id {
            1nat
        } else {
            0nat
        }
    }
}

/// One more handle counts for the frame that it refers to, and for no other.
pub proof fn lemma_count_named_push(handles: Seq<DecodedHandle>, handle: DecodedHandle, id: u64)
    ensures
        count_named(handles.push(handle), id) == count_named(handles, id) + if handle.inner
            == id {
            1nat
        } else {
            0nat
        },
{
    assert(handles.push(handle).drop_last() =~= handles);
}

/// The first handle counts for the frame that it refers to, and for no other.
pub proof fn lemma_count_named_remove_first(handles: Seq<DecodedHandle>, id: u64)
    requires
        handles.len() > 0,
    ensures
        count_named(handles, id) == count_named(handles.remove(0), id) + if handles[0].inner
            == id {
            1nat
        } else {
            0nat
        },
    decreases handles.len(),
{
    if handles.len() == 1 {
        assert(handles.remove(0) =~= Seq::empty());
        assert(handles.drop_last() =~= Seq::empty());
    } else {
        lemma_count_named_remove_first(handles.drop_last(), id);
        assert(handles.remove(0).drop_last() =~= handles.drop_last().remove(0));
    }
}

/// No handle counts for a frame that was made after all of them.
pub proof fn lemma_count_named_of_later_frame(handles: Seq<DecodedHandle>, id: u64)
    requires
        forall|i: int| 0 <= i < handles.len() ==> (#[trigger] handles[i]).inner < id,
    ensures
        count_named(handles, id) == 0,
    decreases handles.len(),
{
    if handles.len() > 0 {
        lemma_count_named_of_later_frame(handles.drop_last(), id);
    }
}

/// A handle counts for a frame exactly if one of the handles refers to the frame.
pub proof fn lemma_count_named_is_positive(handles: Seq<DecodedHandle>, id: u64)
    ensures
        count_named(handles, id) > 0 <==> exists|i: int|
            0 <= i < handles.len() && (#[trigger] handles[i]).inner == id,
    decreases handles.len(),
{
    if handles.len() > 0 {
        let rest = handles.drop_last();
        lemma_count_named_is_positive(rest, id);
        if count_named(handles, id) > 0 {
            if handles.last().inner == id {
                assert(handles[handles.len() - 1].inner == id);
            } else {
                let i = choose|i: int| 0 <= i < rest.len() && (#[trigger] rest[i]).inner == id;
                assert(handles[i].inner == id);
            }
        }
        if exists|i: int| 0 <= i < handles.len() && (#[trigger] handles[i]).inner == id {
            let i = choose|i: int| 0 <= i < handles.len() && (#[trigger] handles[i]).inner == id;
            if i < rest.len() {
                assert(rest[i].inner == id);
            }
        }
    }
}

/// The number of holders of a frame after one more handle refers to it. The count stops
/// at the largest number; a frame that has reached it is never freed.
pub open spec fn holders_after_clone(holders: u64) -> u64 {
    if holders < u64::MAX {
        (holders + 1) as u64
    } else {
        holders
    }
}

/// The VA-API backend: the driver, the metadata of the stream, and the decoded frames that
/// are still referred to.
pub struct VaapiBackend<StreamData: StreamInfo + Copy, D: Display> {
    /// The driver.
    pub display: D,
    /// The metadata state. Updated whenever the decoder reads new data from the stream.
    pub metadata_state: StreamMetadataState,
    /// The negotiation status.
    pub negotiation_status: NegotiationStatus<StreamData>,
    /// The decoded frames that a handle refers to.
    pub handles: HashMap<u64, GenericBackendHandle>,
    /// The frames that were submitted without waiting and have not been seen ready.
    pub pending_jobs: VecDeque<DecodedHandle>,
    /// The next identifier to give to a frame or to a pool. Identifiers are never used twice.
    pub next_id: u64,
    /// The number of surfaces of the current pool that were freed because the driver
    /// failed on them.
    pub lost: Ghost<nat>,
}

impl<StreamData: StreamInfo + Copy, D: Display> VaapiBackend<StreamData, D> {
    /// The frames that hold a surface of the current pool.
    pub open spec fn live_handles(&self) -> Set<u64> {
        match self.metadata_state {
            StreamMetadataState::Parsed(metadata) => live_in(self.handles@, metadata.pool_id),
            StreamMetadataState::Unparsed => Set::empty(),
        }
    }

    /// Every frame can be reached and was made before `next_id`. Once the stream is parsed,
    /// every surface that was allocated for it is accounted for: it is free in the pool, held
    /// by a frame, lost to a failure of the driver, or one of the `borrowed` ones that are
    /// on their way from the pool into a frame.
    pub open spec fn accounts_for_surfaces(&self, borrowed: nat) -> bool {
        &&& forall|id: u64| #[trigger]
            self.handles@.contains_key(id) ==> self.handles@[id].wf() && id < self.next_id
                && self.handles@[id].surface_pool < self.next_id
        &&& self.metadata_state matches StreamMetadataState::Parsed(metadata) ==> {
            &&& metadata.pool_id < self.next_id
            &&& metadata.surface_pool@.len() + self.live_handles().len() + self.lost@ + borrowed
                == metadata.min_num_surfaces
            &&& forall|id: u64| #[trigger]
                self.handles@.contains_key(id) && self.handles@[id].surface_pool
                    == metadata.pool_id ==> self.handles@[id].coded_resolution
                    == metadata.surface_pool.spec_coded_resolution()
        }
    }

    /// While the format can be negotiated, the driver is set up for the stream whose
    /// header is kept.
    pub open spec fn follows_header(&self) -> bool {
        self.negotiation_status matches NegotiationStatus::Possible(hdr) ==> {
            &&& self.metadata_state matches StreamMetadataState::Parsed(metadata)
            &&& stream_is_acceptable(&hdr, None)
            &&& metadata.surface_pool.spec_coded_resolution() == spec_stream_params(
                &hdr,
                None,
            ).coded_resolution
            &&& metadata.display_resolution == spec_stream_params(&hdr, None).display_resolution
            &&& metadata.min_num_surfaces == spec_stream_params(&hdr, None).num_surfaces
        }
    }

    /// Every frame that is waited for was made before `next_id`.
    pub open spec fn waits_for_made_frames(&self) -> bool {
        forall|i: int|
            0 <= i < self.pending_jobs@.len() ==> (#[trigger] self.pending_jobs@[i]).inner
                < self.next_id
    }

    /// The invariant of the backend, while `borrowed` surfaces of the current pool are on
    /// their way from the pool into a frame.
    pub open spec fn inv(&self, borrowed: nat) -> bool {
        self.accounts_for_surfaces(borrowed) && self.follows_header()
            && self.waits_for_made_frames()
    }

    /// The invariant of the backend between two operations.
    pub open spec fn wf(&self) -> bool {
        self.inv(0)
    }

    /// Everything but the driver is as in `other`.
    pub open spec fn same_state(&self, other: &Self) -> bool {
        &&& self.metadata_state == other.metadata_state
        &&& self.negotiation_status == other.negotiation_status
        &&& self.handles@ == other.handles@
        &&& self.pending_jobs@ == other.pending_jobs@
        &&& self.next_id == other.next_id
        &&& self.lost@ == other.lost@
    }

    /// Since `before`, nothing has changed but that frames have been seen ready, and the
    /// frames that are waited for.
    pub open spec fn readied_from(&self, before: &Self) -> bool {
        &&& self.metadata_state == before.metadata_state
        &&& self.negotiation_status == before.negotiation_status
        &&& self.next_id == before.next_id
        &&& self.lost@ == before.lost@
        &&& self.handles@.dom() == before.handles@.dom()
        &&& forall|id: u64| #[trigger]
            self.handles@.contains_key(id) ==> self.handles@[id] == before.handles@[id]
                || self.handles@[id] == before.handles@[id].made_ready()
    }

    /// The frame `id`, if it was among the frames of `before`, is still there, with its
    /// picture as it was.
    pub open spec fn frame_stays(&self, before: &Self, id: u64) -> bool {
        before.handles@.contains_key(id) ==> self.handles@.contains_key(id)
            && self.handles@[id].state == before.handles@[id].state
    }

    /// The frame that `handle` refers to is known to be complete.
    pub open spec fn spec_is_ready(&self, handle: &DecodedHandle) -> bool {
        self.handles@.contains_key(handle.inner) && self.handles@[handle.inner].state is Ready
    }

    /// No frame has been made since `before`: each frame was a frame of `before`, and no
    /// identifier has been used.
    pub open spec fn has_no_new_frame(&self, before: &Self) -> bool {
        &&& self.next_id == before.next_id
        &&& forall|id: u64| #[trigger]
            self.handles@.contains_key(id) ==> before.handles@.contains_key(id)
    }

    /// The frame that `handle` refers to is not awaited: it is ready, or it has ended.
    pub open spec fn is_settled(&self, handle: &DecodedHandle) -> bool {
        self.handles@.contains_key(handle.inner) ==> self.handles@[handle.inner].state is Ready
    }

    /// No frame that `before` waited for is awaited any more.
    pub open spec fn has_settled(&self, before: &Self) -> bool {
        forall|i: int|
            0 <= i < before.pending_jobs@.len() ==> self.is_settled(
                #[trigger] &before.pending_jobs@[i],
            )
    }

    /// The coded resolution of the stream, once it is parsed.
    pub open spec fn spec_coded_resolution(&self) -> Option<Resolution> {
        match self.metadata_state {
            StreamMetadataState::Parsed(metadata) => Some(
                metadata.surface_pool.spec_coded_resolution(),
            ),
            StreamMetadataState::Unparsed => None,
        }
    }

    /// The number of surfaces that were allocated for the stream.
    pub open spec fn spec_num_resources_total(&self) -> usize {
        match self.metadata_state {
            StreamMetadataState::Parsed(metadata) => metadata.min_num_surfaces,
            StreamMetadataState::Unparsed => 0,
        }
    }

    /// The number of free surfaces.
    pub open spec fn spec_num_resources_left(&self) -> nat {
        match self.metadata_state {
            StreamMetadataState::Parsed(metadata) => metadata.surface_pool@.len(),
            StreamMetadataState::Unparsed => 0,
        }
    }

    /// The layout that frames are handed out in, once the stream is parsed and if the
    /// layout is known.
    pub open spec fn spec_format(&self) -> Option<DecodedFormat> {
        match self.metadata_state {
            StreamMetadataState::Parsed(metadata) => decoded_format_of(metadata.map_format.fourcc),
            StreamMetadataState::Unparsed => None,
        }
    }

    /// The display resolution of the stream, once it is parsed.
    pub open spec fn spec_display_resolution(&self) -> Option<Resolution> {
        match self.metadata_state {
            StreamMetadataState::Parsed(metadata) => Some(metadata.display_resolution),
            StreamMetadataState::Unparsed => None,
        }
    }

    /// The stream, its format and the total of its resources are as in `other`.
    pub open spec fn same_stream(&self, other: &Self) -> bool {
        &&& self.spec_coded_resolution() == other.spec_coded_resolution()
        &&& self.spec_display_resolution() == other.spec_display_resolution()
        &&& self.spec_format() == other.spec_format()
        &&& self.spec_num_resources_total() == other.spec_num_resources_total()
    }

    /// A change that leaves the pool of every frame as it is leaves the frames of the
    /// current pool as they are.
    pub proof fn lemma_readied_keeps_live(&self, before: &Self)
        requires
            self.readied_from(before),
        ensures
            self.live_handles() == before.live_handles(),
    {
        if let StreamMetadataState::Parsed(metadata) = self.metadata_state {
            assert(live_in(self.handles@, metadata.pool_id) =~= live_in(
                before.handles@,
                metadata.pool_id,
            )) by {
                assert forall|id: u64|
                    live_in(self.handles@, metadata.pool_id).contains(id) == live_in(
                        before.handles@,
                        metadata.pool_id,
                    ).contains(id) by {
                    assert(self.handles@.dom().contains(id) == before.handles@.dom().contains(id));
                    if self.handles@.contains_key(id) {
                    }
                }
            }
        }
    }

    /// Creates a backend that talks to the driver `display`. Nothing is known of the stream
    /// yet.
    pub fn new(display: D) -> (backend: Self)
        ensures
            backend.wf(),
            backend.metadata_state is Unparsed,
            backend.negotiation_status is NonNegotiated,
            backend.handles@ == Map::<u64, GenericBackendHandle>::empty(),
            backend.pending_jobs@.len() == 0,
    {
        Self {
            display,
            metadata_state: StreamMetadataState::Unparsed,
            negotiation_status: NegotiationStatus::NonNegotiated,
            handles: HashMap::new(),
            pending_jobs: VecDeque::new(),
            next_id: 0,
            lost: Ghost(0),
        }
    }

    /// Returns the current coded resolution of the stream, if it has been parsed.
    pub fn coded_resolution(&self) -> (resolution: Option<Resolution>)
        ensures
            resolution == self.spec_coded_resolution(),
    {
        match &self.metadata_state {
            StreamMetadataState::Parsed(metadata) => Some(metadata.surface_pool.coded_resolution()),
            StreamMetadataState::Unparsed => None,
        }
    }

    /// Returns the current display resolution of the stream, if it has been parsed.
    pub fn display_resolution(&self) -> (resolution: Option<Resolution>)
        ensures
            resolution == self.spec_display_resolution(),
    {
        match &self.metadata_state {
            StreamMetadataState::Parsed(metadata) => Some(metadata.display_resolution),
            StreamMetadataState::Unparsed => None,
        }
    }

    /// Gets the number of output resources allocated by the backend: none before the
    /// stream is parsed.
    pub fn num_resources_total(&self) -> (total: usize)
        ensures
            total == self.spec_num_resources_total(),
    {
        match &self.metadata_state {
            StreamMetadataState::Parsed(metadata) => metadata.min_num_surfaces,
            StreamMetadataState::Unparsed => 0,
        }
    }

    /// Gets the number of output resources left in the backend. It never exceeds the total.
    pub fn num_resources_left(&self) -> (left: usize)
        requires
            self.wf(),
        ensures
            left == self.spec_num_resources_left(),
            left <= self.spec_num_resources_total(),
    {
        match &self.metadata_state {
            StreamMetadataState::Parsed(metadata) => metadata.surface_pool.num_surfaces_left(),
            StreamMetadataState::Unparsed => 0,
        }
    }

    /// Gets the layout that frames are handed out in. It is set to a default when the
    /// stream is parsed.
    pub fn format(&self) -> (format: Option<DecodedFormat>)
        ensures
            format == self.spec_format(),
    {
        match &self.metadata_state {
            StreamMetadataState::Parsed(metadata) => {
                match DecodedFormat::try_from(&metadata.map_format) {
                    Ok(format) => Some(format),
                    Err(_) => None,
                }
            },
            StreamMetadataState::Unparsed => None,
        }
    }

    /// Sets the driver up for the stream that `stream_params` describes, with a new surface
    /// pool and the default format, and lets the client negotiate the format.
    ///
    /// Fails, and changes nothing, where `StreamMetadataState::open` fails.
    pub fn new_sequence(&mut self, stream_params: &StreamData) -> (started:
        StatelessBackendResult<()>)
        requires
            old(self).wf(),
        ensures
            final(self).wf(),
            started is Err ==> final(self).same_state(old(self)),
            started matches Err(error) ==> error is Other || error is UnsupportedFormat,
            !stream_is_acceptable(stream_params, None) ==> started is Err,
            stream_params.spec_va_profile() is Some && stream_params.spec_rt_format() is Some
                && spec_choose_format_map(stream_params.spec_rt_format().unwrap(), None)
                is None ==> started matches Err(StatelessBackendError::UnsupportedFormat),
            started is Ok ==> {
                &&& stream_is_acceptable(stream_params, None)
                &&& final(self).metadata_state matches StreamMetadataState::Parsed(metadata)
                &&& metadata.is_opened_for(
                    spec_stream_params(stream_params, None),
                    old(self).next_id,
                )
                &&& final(self).negotiation_status == NegotiationStatus::Possible(*stream_params)
                &&& final(self).handles@ == old(self).handles@
                &&& final(self).pending_jobs@ == old(self).pending_jobs@
                &&& final(self).next_id == old(self).next_id + 1
                &&& final(self).lost@ == 0
            },
    {
        self.reopen(stream_params, None)?;
        self.negotiation_status = NegotiationStatus::Possible(*stream_params);
        Ok(())
    }

    /// Sets the driver up for `stream_params` with a new surface pool, under a new
    /// identifier. Frames of the pool before keep their surfaces until they are released.
    fn reopen(&mut self, hdr: &StreamData, format_map: Option<&FormatMap>) -> (opened:
        StatelessBackendResult<()>)
        requires
            old(self).wf(),
        ensures
            final(self).accounts_for_surfaces(0),
            opened is Err ==> final(self).same_state(old(self)),
            opened matches Err(error) ==> error is Other || error is UnsupportedFormat,
            !stream_is_acceptable(hdr, option_copied(format_map)) ==> opened is Err,
            hdr.spec_va_profile() is Some && hdr.spec_rt_format() is Some
                && spec_choose_format_map(
                hdr.spec_rt_format().unwrap(),
                option_copied(format_map),
            ) is None ==> opened matches Err(StatelessBackendError::UnsupportedFormat),
            opened is Ok ==> {
                &&& stream_is_acceptable(hdr, option_copied(format_map))
                &&& final(self).metadata_state matches StreamMetadataState::Parsed(metadata)
                &&& metadata.is_opened_for(
                    spec_stream_params(hdr, option_copied(format_map)),
                    old(self).next_id,
                )
                &&& final(self).negotiation_status == old(self).negotiation_status
                &&& final(self).handles@ == old(self).handles@
                &&& final(self).pending_jobs@ == old(self).pending_jobs@
                &&& final(self).next_id == old(self).next_id + 1
                &&& final(self).lost@ == 0
            },
    {
        if self.next_id == u64::MAX {
            if let Err(error) = stream_params(hdr, format_map) {
                return Err(error);
            }
            return Err(StatelessBackendError::Other("identifiers exhausted".to_string()));
        }
        let pool_id = self.next_id;
        self.metadata_state.open(&mut self.display, hdr, format_map, pool_id)?;
        self.next_id = pool_id + 1;
        self.lost = Ghost(0);
        proof {
            lemma_live_of_new_pool(self.handles@, pool_id);
        }
        Ok(())
    }

    /// Tries to change the layout that frames are handed out in to `format`. If it
    /// succeeds, the driver is set up anew and frames come out in `format` until the next
    /// sequence starts.
    ///
    /// Fails with `NegotiationFailed` if the format cannot be negotiated now, that is
    /// unless a sequence has started and its first frame has not been decoded, or if the
    /// stream cannot be decoded into `format`; and where `supported_formats_for_stream` or
    /// `StreamMetadataState::open` fail. Nothing changes on failure.
    pub fn try_format(&mut self, format: DecodedFormat) -> (changed: StatelessBackendResult<()>)
        requires
            old(self).wf(),
        ensures
            final(self).wf(),
            changed is Err ==> final(self).same_state(old(self)),
            !(old(self).negotiation_status is Possible) ==> changed matches Err(
                StatelessBackendError::NegotiationFailed(_),
            ),
            changed is Ok ==> {
                &&& final(self).spec_format() == Some(format)
                &&& final(self).spec_coded_resolution() == old(self).spec_coded_resolution()
                &&& final(self).spec_display_resolution() == old(self).spec_display_resolution()
                &&& final(self).spec_num_resources_total() == old(self).spec_num_resources_total()
                &&& final(self).spec_num_resources_left() == final(self).spec_num_resources_total()
                &&& old(self).negotiation_status is Possible
                &&& final(self).negotiation_status == old(self).negotiation_status
                &&& final(self).handles@ == old(self).handles@
                &&& final(self).pending_jobs@ == old(self).pending_jobs@
                &&& final(self).next_id == old(self).next_id + 1
            },
    {
        let header = match &self.negotiation_status {
            NegotiationStatus::Possible(header) => *header,
            _ => {
                return Err(self.negotiation_not_possible());
            },
        };
        let supported = self.metadata_state.supported_formats_for_stream(&mut self.display)?;
        let map_format = requested_entry(&supported, format)?;
        self.reopen(&header, Some(&map_format))?;
        assert(map_format.rt_format == VA_RT_FORMAT_YUV420);
        Ok(())
    }

    /// Ends the negotiation of the format, if one is under way: the format is negotiated,
    /// and stays as it is until the next sequence starts.
    pub fn end_negotiation(&mut self)
        requires
            old(self).wf(),
        ensures
            final(self).wf(),
            *final(self) == (VaapiBackend {
                negotiation_status: if old(self).negotiation_status is Possible {
                    NegotiationStatus::Negotiated
                } else {
                    old(self).negotiation_status
                },
                ..*old(self)
            }),
    {
        if let NegotiationStatus::Possible(_) = &self.negotiation_status {
            self.negotiation_status = NegotiationStatus::Negotiated;
        }
    }

    /// The error for a format that is asked for while none can be negotiated. It names the
    /// state that the negotiation is in.
    fn negotiation_not_possible(&self) -> (error: StatelessBackendError)
        ensures
            error matches StatelessBackendError::NegotiationFailed(cause) && cause@
                == negotiation_not_possible_message() + self.negotiation_status.spec_name(),
    {
        let stage = self.negotiation_status.name();
        StatelessBackendError::NegotiationFailed(
            "Negotiation is not possible at this stage ".to_string().concat(stage.as_str()),
        )
    }

    /// Takes a free surface to render the next picture into. The surface is on its way
    /// until `process_picture` or `return_surface` takes it.
    ///
    /// Fails with `OutOfResources` if no surface is free, and with `Other` if the stream
    /// has not been parsed. Nothing changes on failure.
    pub fn acquire_surface(&mut self) -> (surface: StatelessBackendResult<Surface>)
        requires
            old(self).wf(),
        ensures
            match old(self).metadata_state {
                StreamMetadataState::Unparsed => surface matches Err(
                    StatelessBackendError::Other(cause),
                ) && cause@ == not_parsed_message(),
                StreamMetadataState::Parsed(before) => if before.surface_pool@.len() == 0 {
                    surface matches Err(StatelessBackendError::OutOfResources)
                } else {
                    &&& surface == Ok::<Surface, StatelessBackendError>(before.surface_pool@[0])
                    &&& final(self).inv(1)
                    &&& final(self).metadata_state matches StreamMetadataState::Parsed(after)
                    &&& after.surface_pool@ == before.surface_pool@.skip(1)
                    &&& after.is_same_stream(before)
                },
            },
            surface is Err ==> final(self).same_state(old(self)),
            final(self).negotiation_status == old(self).negotiation_status,
            final(self).handles@ == old(self).handles@,
            final(self).pending_jobs@ == old(self).pending_jobs@,
            final(self).next_id == old(self).next_id,
            final(self).lost@ == old(self).lost@,
    {
        match &mut self.metadata_state {
            StreamMetadataState::Unparsed => Err(
                StatelessBackendError::Other("Stream metadata not parsed yet".to_string()),
            ),
            StreamMetadataState::Parsed(metadata) => {
                if metadata.surface_pool.num_surfaces_left() == 0 {
                    return Err(StatelessBackendError::OutOfResources);
                }
                match metadata.surface_pool.get_surface() {
                    Some(surface) => Ok(surface),
                    None => Err(StatelessBackendError::OutOfResources),
                }
            },
        }
    }

    /// What a submission that the driver failed on leaves of the backend `before`: the
    /// frames, the frames that are waited for, the negotiation and the stream are as they
    /// were, at most one identifier was used, and the surface that was taken is free
    /// again or is lost.
    pub open spec fn gave_up(&self, before: &Self) -> bool {
        &&& self.handles@ == before.handles@
        &&& self.pending_jobs@ == before.pending_jobs@
        &&& self.negotiation_status == before.negotiation_status
        &&& self.same_stream(before)
        &&& before.next_id <= self.next_id <= before.next_id + 1
        &&& before.lost@ <= self.lost@ <= before.lost@ + 1
        &&& self.spec_num_resources_left() + self.lost@ == before.spec_num_resources_left()
            + before.lost@
    }

    /// Puts a surface that was acquired and not used back into the pool.
    pub fn return_surface(&mut self, surface: Surface)
        requires
            old(self).inv(1),
            old(self).metadata_state is Parsed,
        ensures
            final(self).wf(),
            final(self).metadata_state matches StreamMetadataState::Parsed(after)
                && old(self).metadata_state matches StreamMetadataState::Parsed(before)
                && after.surface_pool@ == before.surface_pool@.push(surface)
                && after.is_same_stream(before),
            final(self).negotiation_status == old(self).negotiation_status,
            final(self).handles@ == old(self).handles@,
            final(self).pending_jobs@ == old(self).pending_jobs@,
            final(self).next_id == old(self).next_id,
            final(self).lost@ == old(self).lost@,
    {
        match &mut self.metadata_state {
            StreamMetadataState::Parsed(metadata) => {
                metadata.surface_pool.add_surface(surface);
            },
            StreamMetadataState::Unparsed => {},
        }
    }

    /// The frame `id` gives its surface back to the pool when its last handle is released:
    /// the pool that it took the surface from is still the current one.
    pub open spec fn returns_to_pool(&self, id: u64) -> bool {
        &&& self.metadata_state matches StreamMetadataState::Parsed(metadata)
        &&& self.handles@.contains_key(id)
        &&& self.handles@[id].surface_pool == metadata.pool_id
        &&& self.handles@[id].coded_resolution == metadata.surface_pool.spec_coded_resolution()
    }

    /// Submits `picture`, which holds a surface that was acquired, to the driver, and
    /// returns the handle to the new frame. The frame is pending.
    ///
    /// Fails with `Other` if the stream has not been parsed, if the driver fails, or if no
    /// identifier is left. The surface is freed then, and for a parsed stream counted as lost.
    pub fn process_picture(&mut self, picture: Picture) -> (handle: StatelessBackendResult<
        DecodedHandle,
    >)
        requires
            old(self).inv(1),
        ensures
            final(self).wf(),
            final(self).metadata_state == old(self).metadata_state,
            final(self).negotiation_status == old(self).negotiation_status,
            final(self).pending_jobs@ == old(self).pending_jobs@,
            old(self).metadata_state is Unparsed ==> handle is Err,
            handle matches Ok(handle) ==> {
                &&& old(self).metadata_state matches StreamMetadataState::Parsed(metadata)
                &&& handle == (DecodedHandle {
                    inner: old(self).next_id,
                    timestamp: picture.timestamp,
                    display_resolution: metadata.display_resolution,
                    display_order: None,
                })
                &&& final(self).handles@ == old(self).handles@.insert(
                    old(self).next_id,
                    GenericBackendHandle {
                        state: PictureState::Pending(picture),
                        coded_resolution: metadata.surface_pool.spec_coded_resolution(),
                        display_resolution: metadata.display_resolution,
                        map_format: metadata.map_format,
                        surface_pool: metadata.pool_id,
                        holders: 1,
                    },
                )
                &&& final(self).next_id == old(self).next_id + 1
                &&& final(self).lost@ == old(self).lost@
            },
            handle matches Err(error) ==> {
                &&& error is Other
                &&& final(self).handles@ == old(self).handles@
                &&& final(self).next_id == old(self).next_id
                &&& final(self).lost@ == old(self).lost@ + (if old(self).metadata_state is Parsed {
                    1nat
                } else {
                    0nat
                })
            },
    {
        let metadata = match &self.metadata_state {
            StreamMetadataState::Parsed(metadata) => metadata,
            StreamMetadataState::Unparsed => {
                self.display.destroy_surface(picture.take_surface());
                return Err(
                    StatelessBackendError::Other("Stream metadata not parsed yet".to_string()),
                );
            },
        };
        if self.next_id == u64::MAX {
            self.display.destroy_surface(picture.take_surface());
            self.lost = Ghost(self.lost@ + 1);
            return Err(StatelessBackendError::Other("identifiers exhausted".to_string()));
        }
        let timestamp = picture.timestamp();
        let display_resolution = metadata.display_resolution;
        match GenericBackendHandle::new(&mut self.display, picture, metadata) {
            Ok(frame) => {
                let id = self.next_id;
                proof {
                    lemma_live_after_insert(self.handles@, id, frame, metadata.pool_id);
                }
                self.handles.insert(id, frame);
                self.next_id = id + 1;
                Ok(DecodedHandle::new(id, timestamp, display_resolution))
            },
            Err(error) => {
                self.lost = Ghost(self.lost@ + 1);
                Err(error)
            },
        }
    }

    /// Whether the frame that `handle` refers to is ready, without blocking. Once a frame
    /// has been found ready it stays so, and the driver is not asked about it again.
    ///
    /// A frame is also taken to be ready if the driver cannot tell. A handle that refers to
    /// no frame of the backend is not ready.
    pub fn handle_is_ready(&mut self, handle: &DecodedHandle) -> (ready: bool)
        requires
            old(self).wf(),
        ensures
            final(self).wf(),
            final(self).readied_from(old(self)),
            final(self).pending_jobs@ == old(self).pending_jobs@,
            ready == final(self).spec_is_ready(handle),
            old(self).spec_is_ready(handle) ==> ready && final(self).same_state(old(self)),
            forall|id: u64|
                id != handle.inner ==> final(self).handles@[id]
                    == #[trigger] old(self).handles@[id],
    {
        let mut frame = match self.handles.remove(&handle.inner) {
            Some(frame) => frame,
            None => {
                assert(self.handles@ =~= old(self).handles@);
                return false;
            },
        };
        let ready = match frame.is_va_ready(&mut self.display) {
            Ok(ready) => ready,
            Err(_) => true,
        };
        if ready {
            frame.mark_ready();
        }
        proof {
            lemma_live_restored(old(self).handles@, handle.inner, frame);
        }
        self.handles.insert(handle.inner, frame);
        proof {
            self.lemma_readied_keeps_live(old(self));
            if old(self).spec_is_ready(handle) {
                assert(self.handles@ =~= old(self).handles@);
            }
        }
        ready
    }

    /// Blocks until the frame that `handle` refers to is ready.
    ///
    /// Fails with `Other` if the driver fails, or if `handle` refers to no frame of the
    /// backend.
    pub fn block_on_handle(&mut self, handle: &DecodedHandle) -> (synced:
        StatelessBackendResult<()>)
        requires
            old(self).wf(),
        ensures
            final(self).wf(),
            final(self).readied_from(old(self)),
            final(self).pending_jobs@ == old(self).pending_jobs@,
            synced is Ok ==> final(self).spec_is_ready(handle),
            old(self).spec_is_ready(handle) ==> synced is Ok && final(self).same_state(old(self)),
            synced matches Err(error) ==> error is Other,
            !old(self).handles@.contains_key(handle.inner) ==> synced is Err,
            forall|id: u64|
                id != handle.inner ==> final(self).handles@[id]
                    == #[trigger] old(self).handles@[id],
    {
        let mut frame = match self.handles.remove(&handle.inner) {
            Some(frame) => frame,
            None => {
                assert(self.handles@ =~= old(self).handles@);
                return Err(StatelessBackendError::Other("unknown frame".to_string()));
            },
        };
        let synced = frame.sync(&mut self.display);
        proof {
            lemma_live_restored(old(self).handles@, handle.inner, frame);
        }
        self.handles.insert(handle.inner, frame);
        proof {
            self.lemma_readied_keeps_live(old(self));
            if old(self).spec_is_ready(handle) {
                assert(self.handles@ =~= old(self).handles@);
            }
        }
        synced
    }

    /// The frame that `handle` refers to is of the backend, and its layout is one that can
    /// be mapped: NV12 or I420.
    pub open spec fn maps(&self, handle: &DecodedHandle) -> bool {
        self.handles@.contains_key(handle.inner) && decoded_format_of(
            self.handles@[handle.inner].map_format.fourcc,
        ) is Some
    }

    /// Maps the frame that `handle` refers to into memory, after waiting for it to be
    /// ready.
    ///
    /// Fails with `UnsupportedFormat` if the layout of the frame is neither NV12 nor I420,
    /// and with `Other` if the driver fails or if `handle` refers to no frame of the backend.
    pub fn image(&mut self, handle: &DecodedHandle) -> (image: StatelessBackendResult<Image>)
        requires
            old(self).wf(),
        ensures
            final(self).wf(),
            final(self).readied_from(old(self)),
            final(self).pending_jobs@ == old(self).pending_jobs@,
            image is Ok ==> final(self).spec_is_ready(handle) && old(self).maps(handle),
            image matches Err(error) ==> error is Other || error is UnsupportedFormat,
            !old(self).handles@.contains_key(handle.inner) ==> image is Err,
            old(self).spec_is_ready(handle) && !old(self).maps(handle) ==> image matches Err(
                StatelessBackendError::UnsupportedFormat,
            ),
    {
        let mut frame = match self.handles.remove(&handle.inner) {
            Some(frame) => frame,
            None => {
                assert(self.handles@ =~= old(self).handles@);
                return Err(StatelessBackendError::Other("unknown frame".to_string()));
            },
        };
        let image = frame.image(&mut self.display);
        proof {
            lemma_live_restored(old(self).handles@, handle.inner, frame);
        }
        self.handles.insert(handle.inner, frame);
        proof {
            self.lemma_readied_keeps_live(old(self));
        }
        image
    }

    /// The identifier of the surface that holds the frame that `handle` refers to, or of
    /// no surface if there is no such frame.
    pub fn surface_id_of(&self, handle: Option<&DecodedHandle>) -> (id: u32)
        requires
            forall|id: u64| #[trigger] self.handles@.contains_key(id) ==> self.handles@[id].wf(),
        ensures
            match handle {
                Some(handle) if self.handles@.contains_key(handle.inner) => id
                    == self.handles@[handle.inner].state.picture().surface.id,
                _ => id == VA_INVALID_SURFACE,
            },
    {
        match handle {
            Some(handle) => match self.handles.get(&handle.inner) {
                Some(frame) => frame.surface_id(),
                None => VA_INVALID_SURFACE,
            },
            None => VA_INVALID_SURFACE,
        }
    }

    /// Makes one more handle to the frame that `handle` refers to. The new handle has the
    /// display order of `handle`.
    pub fn clone_handle(&mut self, handle: &DecodedHandle) -> (copy: DecodedHandle)
        requires
            old(self).wf(),
        ensures
            final(self).wf(),
            copy == *handle,
            final(self).metadata_state == old(self).metadata_state,
            final(self).negotiation_status == old(self).negotiation_status,
            final(self).pending_jobs@ == old(self).pending_jobs@,
            final(self).next_id == old(self).next_id,
            final(self).lost@ == old(self).lost@,
            final(self).handles@ == (if old(self).handles@.contains_key(handle.inner) {
                old(self).handles@.insert(
                    handle.inner,
                    old(self).handles@[handle.inner].held_by(
                        holders_after_clone(old(self).handles@[handle.inner].holders),
                    ),
                )
            } else {
                old(self).handles@
            }),
    {
        match self.handles.remove(&handle.inner) {
            Some(frame) => {
                let mut frame = frame;
                if frame.holders < u64::MAX {
                    frame.holders = frame.holders + 1;
                }
                proof {
                    lemma_live_restored(old(self).handles@, handle.inner, frame);
                }
                self.handles.insert(handle.inner, frame);
            },
            None => {
                assert(self.handles@ =~= old(self).handles@);
            },
        }
        DecodedHandle {
            inner: handle.inner,
            timestamp: handle.timestamp,
            display_resolution: handle.display_resolution,
            display_order: handle.display_order,
        }
    }

    /// What giving back one handle to the frame `id` makes of the backend `before`.
    ///
    /// Nothing changes if there is no such frame, or if its holders are past counting. A
    /// frame that other handles refer to has one holder less. The last handle ends the
    /// frame: its surface is added to the pool if the frame took it from the current pool,
    /// unless the frame was pending and the wait for it failed, in which case the surface
    /// is counted as lost; a frame of an earlier pool leaves the pool as it is.
    pub open spec fn released(&self, before: &Self, id: u64) -> bool {
        &&& self.negotiation_status == before.negotiation_status
        &&& self.pending_jobs@ == before.pending_jobs@
        &&& self.next_id == before.next_id
        &&& if !before.handles@.contains_key(id) {
            self.same_state(before)
        } else {
            let frame = before.handles@[id];
            if frame.holders == u64::MAX {
                self.same_state(before)
            } else if frame.holders > 1 {
                &&& self.handles@ == before.handles@.insert(
                    id,
                    frame.held_by((frame.holders - 1) as u64),
                )
                &&& self.metadata_state == before.metadata_state
                &&& self.lost@ == before.lost@
            } else {
                &&& self.handles@ == before.handles@.remove(id)
                &&& if before.returns_to_pool(id) {
                    &&& self.metadata_state matches StreamMetadataState::Parsed(after)
                    &&& before.metadata_state matches StreamMetadataState::Parsed(pool)
                    &&& after.is_same_stream(pool)
                    &&& {
                        ||| after.surface_pool@ == pool.surface_pool@.push(
                            frame.state.picture().surface,
                        ) && self.lost@ == before.lost@
                        ||| frame.state is Pending && after.surface_pool@ == pool.surface_pool@
                            && self.lost@ == before.lost@ + 1
                    }
                } else {
                    &&& self.metadata_state == before.metadata_state
                    &&& self.lost@ == before.lost@
                }
            }
        }
    }

    /// Since `before`, frames may have ended and surfaces may have become free, and
    /// nothing else has happened to the frames and the pool: a frame that is still there
    /// was there before, with its picture as it is, and no fewer surfaces are free.
    pub open spec fn outlives(&self, before: &Self) -> bool {
        &&& forall|id: u64| #[trigger]
            self.handles@.contains_key(id) ==> before.handles@.contains_key(id)
                && self.handles@[id].state == before.handles@[id].state
        &&& self.spec_num_resources_left() >= before.spec_num_resources_left()
    }

    /// What giving the handles `handles` back leaves of the frame `id`, from `before` to
    /// `self`: if more handles referred to the frame than were given back, the frame is
    /// still there with its picture as it was, and as many handles fewer refer to it, at
    /// most. A count of handles that has reached the largest number stays there, and
    /// the frame with it.
    pub open spec fn keeps_frame(&self, before: &Self, handles: Seq<DecodedHandle>, id: u64)
        -> bool {
        before.handles@.contains_key(id) && (before.handles@[id].holders == u64::MAX
            || before.handles@[id].holders > count_named(handles, id)) ==> {
            &&& self.frame_stays(before, id)
            &&& self.handles@[id].holders + count_named(handles, id)
                >= before.handles@[id].holders
            &&& self.handles@[id].holders <= before.handles@[id].holders
            &&& before.handles@[id].holders == u64::MAX ==> self.handles@[id].holders
                == u64::MAX
        }
    }

    /// One of `handles` refers to the frame `id`.
    pub open spec fn names_frame(handles: Seq<DecodedHandle>, id: u64) -> bool {
        exists|i: int| 0 <= i < handles.len() && (#[trigger] handles[i]).inner == id
    }

    /// What giving back every handle of `handles`, the last one first, makes of the
    /// backend `before`.
    pub open spec fn released_all(&self, before: &Self, handles: Seq<DecodedHandle>) -> bool
        decreases handles.len(),
    {
        if handles.len() == 0 {
            self.same_state(before)
        } else {
            exists|middle: Self|
                middle.wf() && #[trigger] middle.released(before, handles.last().inner)
                    && self.released_all(&middle, handles.drop_last())
        }
    }

    /// Gives a handle back. When the last handle to a frame is given back, the frame ends:
    /// its surface goes back to the pool that it was taken from, if that is still the
    /// current pool, and is freed otherwise.
    ///
    /// A frame that is pending is waited for before its surface goes back. If that wait
    /// fails, the surface is freed instead and counted as lost.
    pub fn release_handle(&mut self, handle: DecodedHandle)
        requires
            old(self).wf(),
        ensures
            final(self).wf(),
            final(self).released(old(self), handle.inner),
    {
        let id = handle.inner;
        let frame = match self.handles.remove(&id) {
            Some(frame) => frame,
            None => {
                assert(self.handles@ =~= old(self).handles@);
                return ;
            },
        };
        if frame.holders == u64::MAX {
            proof {
                lemma_live_restored(old(self).handles@, id, frame);
            }
            self.handles.insert(id, frame);
            assert(self.handles@ =~= old(self).handles@);
            return ;
        }
        if frame.holders > 1 {
            let mut frame = frame;
            frame.holders = frame.holders - 1;
            proof {
                lemma_live_restored(old(self).handles@, id, frame);
            }
            self.handles.insert(id, frame);
            return ;
        }
        let GenericBackendHandle { state, coded_resolution, surface_pool, .. } = frame;
        match &mut self.metadata_state {
            StreamMetadataState::Parsed(metadata) => {
                if surface_pool == metadata.pool_id && metadata.surface_pool.coded_resolution()
                    == coded_resolution {
                    proof {
                        lemma_live_after_remove(old(self).handles@, id, metadata.pool_id);
                    }
                    match state.try_into(&mut self.display) {
                        Ok(surface) => {
                            metadata.surface_pool.add_surface(surface);
                        },
                        Err(_) => {
                            self.lost = Ghost(self.lost@ + 1);
                        },
                    }
                } else {
                    proof {
                        lemma_live_after_remove(old(self).handles@, id, metadata.pool_id);
                    }
                    free_picture(&mut self.display, state);
                }
            },
            StreamMetadataState::Unparsed => {
                free_picture(&mut self.display, state);
            },
        }
    }

    /// Gives every handle of `handles` back, the last one first.
    pub(crate) fn release_all(&mut self, handles: Vec<DecodedHandle>)
        requires
            old(self).wf(),
        ensures
            final(self).wf(),
            final(self).released_all(old(self), handles@),
            final(self).outlives(old(self)),
            forall|id: u64|
                !Self::names_frame(handles@, id) ==> #[trigger] final(self).frame_stays(
                    old(self),
                    id,
                ),
            forall|id: u64| #[trigger] final(self).keeps_frame(old(self), handles@, id),
            final(self).negotiation_status == old(self).negotiation_status,
            final(self).pending_jobs@ == old(self).pending_jobs@,
            final(self).next_id == old(self).next_id,
            final(self).same_stream(old(self)),
        decreases handles@.len(),
    {
        let mut rest = handles;
        if let Some(handle) = rest.pop() {
            self.release_handle(handle);
            let ghost middle = *self;
            self.release_all(rest);
            proof {
                assert(rest@ =~= handles@.drop_last());
                assert(middle.released(old(self), handles@.last().inner));
                assert(middle.outlives(old(self)));
                assert forall|id: u64|
                    !Self::names_frame(handles@, id) implies #[trigger] self.frame_stays(
                    old(self),
                    id,
                ) by {
                    assert(handles@[handles@.len() - 1].inner != id);
                    assert(middle.frame_stays(old(self), id));
                    if Self::names_frame(rest@, id) {
                        let i = choose|i: int|
                            0 <= i < rest@.len() && (#[trigger] rest@[i]).inner == id;
                        assert(handles@[i].inner == id);
                    }
                    assert(self.frame_stays(&middle, id));
                }
                assert forall|id: u64| #[trigger] self.keeps_frame(old(self), handles@, id) by {
                    assert(self.keeps_frame(&middle, rest@, id));
                }
            }
        }
    }

    /// A frame that is ready, and that no handle among those waited for refers to, is
    /// still ready after `poll`, from `waited` to `settled`, and after the handles `polled`
    /// that it returned have been given back, which leaves `self`.
    pub proof fn lemma_ready_outlasts_poll(
        &self,
        settled: &Self,
        waited: &Self,
        blocking_mode: BlockingMode,
        polled: Seq<DecodedHandle>,
        handle: &DecodedHandle,
    )
        requires
            waited.wf(),
            settled.polled(waited, blocking_mode, polled),
            forall|id: u64|
                !Self::names_frame(polled, id) ==> #[trigger] self.frame_stays(settled, id),
            waited.spec_is_ready(handle),
            !Self::names_frame(waited.pending_jobs@, handle.inner),
        ensures
            self.spec_is_ready(handle),
    {
        settled.lemma_polled_frames_were_waited_for(waited, blocking_mode, polled);
        settled.lemma_ready_is_kept(waited, handle);
        if Self::names_frame(polled, handle.inner) {
            let i = choose|i: int|
                0 <= i < polled.len() && (#[trigger] polled[i]).inner == handle.inner;
            assert(waited.pending_jobs@.contains(polled[i]));
            let j = choose|j: int|
                0 <= j < waited.pending_jobs@.len() && waited.pending_jobs@[j] == polled[i];
            assert(waited.pending_jobs@[j].inner == handle.inner);
        }
        assert(self.frame_stays(settled, handle.inner));
    }

    /// The frames that `poll` returns were among the frames that were waited for.
    pub proof fn lemma_polled_frames_were_waited_for(
        &self,
        before: &Self,
        blocking_mode: BlockingMode,
        frames: Seq<DecodedHandle>,
    )
        requires
            self.polled(before, blocking_mode, frames),
        ensures
            forall|i: int|
                0 <= i < frames.len() ==> before.pending_jobs@.contains(#[trigger] frames[i]),
    {
        broadcast use vstd::seq_lib::group_to_multiset_ensures;

        assert forall|i: int| 0 <= i < frames.len() implies before.pending_jobs@.contains(
            #[trigger] frames[i],
        ) by {
            assert(frames.contains(frames[i]));
            assert(frames.to_multiset().count(frames[i]) > 0);
            assert(before.pending_jobs@.to_multiset().count(frames[i]) > 0);
        }
    }

    /// Frames that are seen ready one after the other have been seen ready since the
    /// beginning.
    pub proof fn lemma_readied_from_is_transitive(&self, middle: &Self, before: &Self)
        requires
            before.wf(),
            middle.readied_from(before),
            self.readied_from(middle),
        ensures
            self.readied_from(before),
    {
        assert forall|id: u64| #[trigger] self.handles@.contains_key(id) implies self.handles@[id]
            == before.handles@[id] || self.handles@[id] == before.handles@[id].made_ready() by {
            assert(middle.handles@.contains_key(id));
            assert(before.handles@.contains_key(id));
            before.handles@[id].lemma_made_ready_is_idempotent();
        }
    }

    /// A frame that is ready stays ready while frames are only seen ready.
    pub proof fn lemma_ready_is_kept(&self, before: &Self, handle: &DecodedHandle)
        requires
            before.wf(),
            self.readied_from(before),
            before.spec_is_ready(handle),
        ensures
            self.spec_is_ready(handle),
    {
        assert(self.handles@.contains_key(handle.inner));
        before.handles@[handle.inner].lemma_made_ready_is_idempotent();
    }

    /// Every frame that was submitted without waiting is known to be complete.
    pub open spec fn waits_for_nothing(&self) -> bool {
        forall|i: int|
            0 <= i < self.pending_jobs@.len() ==> self.spec_is_ready(
                #[trigger] &self.pending_jobs@[i],
            )
    }

    /// What `poll` makes of the backend `before` when it returns `frames`: frames have been
    /// seen ready and nothing else has changed; each of `frames` is ready; `frames` and the
    /// frames that are still waited for are together the frames that were waited for; with
    /// `Blocking` they are all in `frames`, in their order; and a frame that is still
    /// waited for was not ready before.
    pub open spec fn polled(
        &self,
        before: &Self,
        blocking_mode: BlockingMode,
        frames: Seq<DecodedHandle>,
    ) -> bool {
        &&& self.readied_from(before)
        &&& forall|i: int| 0 <= i < frames.len() ==> self.spec_is_ready(#[trigger] &frames[i])
        &&& frames.to_multiset().add(self.pending_jobs@.to_multiset())
            == before.pending_jobs@.to_multiset()
        &&& blocking_mode is Blocking ==> frames == before.pending_jobs@
            && self.pending_jobs@.len() == 0
        &&& forall|i: int|
            0 <= i < self.pending_jobs@.len() ==> !before.spec_is_ready(
                #[trigger] &self.pending_jobs@[i],
            )
    }

    /// Looks at the frames that were submitted without waiting, and returns those that are
    /// ready now, in the order in which they were submitted. With `Blocking` every such
    /// frame is waited for. The frames that are not ready stay with the backend.
    ///
    /// Fails with `Other` if the driver fails on a wait. The frames that were found ready
    /// until then are released. Without `Blocking`, and if every frame is ready already,
    /// nothing is waited for and the call succeeds.
    pub fn poll(&mut self, blocking_mode: BlockingMode) -> (ready: StatelessBackendResult<
        Vec<DecodedHandle>,
    >)
        requires
            old(self).wf(),
        ensures
            final(self).wf(),
            final(self).negotiation_status == old(self).negotiation_status,
            final(self).next_id == old(self).next_id,
            final(self).same_stream(old(self)),
            final(self).has_no_new_frame(old(self)),
            ready matches Ok(frames) ==> final(self).polled(old(self), blocking_mode, frames@),
            ready matches Ok(frames) ==> forall|id: u64|
                count_named(frames@, id) + count_named(final(self).pending_jobs@, id)
                    == #[trigger] count_named(old(self).pending_jobs@, id),
            blocking_mode is NonBlocking || old(self).waits_for_nothing() ==> ready is Ok,
            ready matches Err(error) ==> error is Other,
    {
        let mut completed: Vec<DecodedHandle> = Vec::new();
        let mut remaining: usize = self.pending_jobs.len();
        proof {
            broadcast use vstd::seq_lib::group_to_multiset_ensures;

            assert(completed@.to_multiset() =~= vstd::multiset::Multiset::empty());
            assert(completed@.to_multiset().add(self.pending_jobs@.to_multiset())
                =~= self.pending_jobs@.to_multiset());
        }
        while remaining > 0
            invariant
                self.wf(),
                old(self).wf(),
                self.readied_from(old(self)),
                forall|i: int|
                    0 <= i < completed@.len() ==> self.spec_is_ready(#[trigger] &completed@[i]),
                remaining <= self.pending_jobs@.len(),
                completed@.to_multiset().add(self.pending_jobs@.to_multiset())
                    == old(self).pending_jobs@.to_multiset(),
                forall|id: u64|
                    count_named(completed@, id) + count_named(self.pending_jobs@, id)
                        == #[trigger] count_named(old(self).pending_jobs@, id),
                blocking_mode is Blocking ==> remaining == self.pending_jobs@.len()
                    && completed@ + self.pending_jobs@ == old(self).pending_jobs@,
                forall|i: int|
                    remaining <= i < self.pending_jobs@.len() ==> !old(self).spec_is_ready(
                        #[trigger] &self.pending_jobs@[i],
                    ),
            decreases remaining,
        {
            remaining -= 1;
            let ghost waiting = self.pending_jobs@;
            if let Some(job) = self.pending_jobs.pop_front() {
                let ghost before = *self;
                proof {
                    broadcast use vstd::seq_lib::group_to_multiset_ensures;

                    assert(waiting.remove(0) =~= self.pending_jobs@);
                    assert(waiting.to_multiset() =~= self.pending_jobs@.to_multiset().insert(job));
                    if blocking_mode is Blocking && old(self).waits_for_nothing() {
                        assert(job == (completed@ + waiting)[completed@.len() as int]);
                        self.lemma_ready_is_kept(old(self), &job);
                    }
                }
                let is_ready = match blocking_mode {
                    BlockingMode::Blocking => {
                        match self.block_on_handle(&job) {
                            Ok(()) => true,
                            Err(error) => {
                                self.pending_jobs.push_front(job);
                                self.release_all(completed);
                                return Err(error);
                            },
                        }
                    },
                    BlockingMode::NonBlocking => self.handle_is_ready(&job),
                };
                proof {
                    self.lemma_readied_from_is_transitive(&before, old(self));
                    assert forall|i: int| 0 <= i < completed@.len() implies self.spec_is_ready(
                        #[trigger] &completed@[i],
                    ) by {
                        self.lemma_ready_is_kept(&before, &completed@[i]);
                    }
                }
                let ghost found = completed@;
                let ghost rest = self.pending_jobs@;
                if is_ready {
                    completed.push(job);
                } else {
                    self.pending_jobs.push_back(job);
                }
                proof {
                    broadcast use vstd::seq_lib::group_to_multiset_ensures;

                    assert(completed@.to_multiset().add(self.pending_jobs@.to_multiset())
                        =~= found.to_multiset().add(rest.to_multiset()).insert(job));
                    if blocking_mode is Blocking {
                        assert(completed@ + self.pending_jobs@ =~= found + waiting);
                    }
                    assert forall|id: u64|
                        count_named(completed@, id) + count_named(self.pending_jobs@, id)
                            == #[trigger] count_named(old(self).pending_jobs@, id) by {
                        lemma_count_named_remove_first(waiting, id);
                        lemma_count_named_push(found, job, id);
                        lemma_count_named_push(rest, job, id);
                        assert(count_named(found, id) + count_named(waiting, id) == count_named(
                            old(self).pending_jobs@,
                            id,
                        ));
                    }
                    if !is_ready && old(self).spec_is_ready(&job) {
                        self.lemma_ready_is_kept(old(self), &job);
                    }
                    assert forall|i: int|
                        remaining <= i < self.pending_jobs@.len() implies !old(self).spec_is_ready(
                        #[trigger] &self.pending_jobs@[i],
                    ) by {
                        if i < rest.len() {
                            assert(self.pending_jobs@[i] == waiting[i + 1]);
                        }
                    }
                }
            }
        }
        assert(blocking_mode is Blocking ==> completed@ + self.pending_jobs@ =~= completed@);
        Ok(completed)
    }

    /// At all times, no more surfaces are free than were allocated for the stream.
    pub proof fn lemma_resources_left_within_total(&self)
        requires
            self.wf(),
        ensures
            self.spec_num_resources_left() <= self.spec_num_resources_total(),
    {
    }

    /// Once the stream is parsed, the surfaces that are free, those that live frames hold,
    /// and those that were lost to a failure of the driver are together the surfaces that
    /// were allocated. As long as the driver has not failed on a surface, the free and the
    /// held ones are all of them.
    pub proof fn lemma_surfaces_are_accounted_for(&self)
        requires
            self.wf(),
            self.metadata_state is Parsed,
        ensures
            self.spec_num_resources_left() + self.live_handles().len() + self.lost@
                == self.spec_num_resources_total(),
            self.lost@ == 0 ==> self.spec_num_resources_left() + self.live_handles().len()
                == self.spec_num_resources_total(),
    {
    }
}

} // verus!
