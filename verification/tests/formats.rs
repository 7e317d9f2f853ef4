//! Formats, the surface pool, mapped images, and errors.

use cros_codecs::decoded_frame_size;
use cros_codecs::decoder::stateless::DecodeError;
use cros_codecs::decoder::stateless::StatelessBackendError;
use cros_codecs::decoders::vp8::decoder::has_valid_copy_flags;
use cros_codecs::decoders::vp8::decoder::negotiation_possible;
use cros_codecs::decoders::vp8::parser::Header;
use cros_codecs::i420_copy;
use cros_codecs::nv12_copy;
use cros_codecs::utils::vaapi::accept_surface_count;
use cros_codecs::utils::vaapi::choose_format_map;
use cros_codecs::utils::vaapi::default_format_map;
use cros_codecs::utils::vaapi::find_image_format;
use cros_codecs::utils::vaapi::format_map;
use cros_codecs::utils::vaapi::format_map_for;
use cros_codecs::utils::vaapi::is_rt_format_offered;
use cros_codecs::utils::vaapi::requested_entry;
use cros_codecs::utils::vaapi::select_map_format;
use cros_codecs::utils::vaapi::select_supported_formats;
use cros_codecs::utils::vaapi::stream_params;
use cros_codecs::utils::vaapi::surface_is_ready;
use cros_codecs::utils::vaapi::DecodedHandle;
use cros_codecs::utils::vaapi::FormatMap;
use cros_codecs::utils::vaapi::GenericBackendHandle;
use cros_codecs::utils::vaapi::Image;
use cros_codecs::utils::vaapi::ImageFormat;
use cros_codecs::utils::vaapi::NegotiationStatus;
use cros_codecs::utils::vaapi::Picture;
use cros_codecs::utils::vaapi::PictureState;
use cros_codecs::utils::vaapi::StreamInfo;
use cros_codecs::utils::vaapi::StreamMetadataState;
use cros_codecs::utils::vaapi::Surface;
use cros_codecs::utils::vaapi::SurfacePoolHandle;
use cros_codecs::utils::vaapi::FORMAT_MAP_LEN;
use cros_codecs::utils::vaapi::VA_FOURCC_I420;
use cros_codecs::utils::vaapi::VA_FOURCC_NV12;
use cros_codecs::utils::vaapi::VA_RT_FORMAT_YUV420;
use cros_codecs::DecodedFormat;
use cros_codecs::Resolution;

fn image_format(fourcc: u32) -> ImageFormat {
    ImageFormat {
        fourcc,
        byte_order: 1,
        bits_per_pixel: 12,
        depth: 0,
        red_mask: 0,
        green_mask: 0,
        blue_mask: 0,
        alpha_mask: 0,
    }
}

const NV12: FormatMap = FormatMap {
    rt_format: VA_RT_FORMAT_YUV420,
    va_fourcc: VA_FOURCC_NV12,
    decoded_format: DecodedFormat::NV12,
};

const I420: FormatMap = FormatMap {
    rt_format: VA_RT_FORMAT_YUV420,
    va_fourcc: VA_FOURCC_I420,
    decoded_format: DecodedFormat::I420,
};

#[test]
fn the_preference_list_prefers_nv12() {
    assert_eq!(FORMAT_MAP_LEN, 2);
    assert_eq!(format_map(0), NV12);
    assert_eq!(format_map(1), I420);
    assert_eq!(VA_FOURCC_NV12, u32::from_le_bytes(*b"NV12"));
    assert_eq!(VA_FOURCC_I420, u32::from_le_bytes(*b"I420"));
    assert_eq!(default_format_map(VA_RT_FORMAT_YUV420), Some(NV12));
    assert_eq!(default_format_map(2), None);
    assert_eq!(format_map_for(DecodedFormat::NV12), NV12);
    assert_eq!(format_map_for(DecodedFormat::I420), I420);
}

#[test]
fn a_requested_format_is_chosen_if_it_fits_the_stream() {
    assert_eq!(choose_format_map(VA_RT_FORMAT_YUV420, Some(&I420)), Some(I420));
    assert_eq!(choose_format_map(VA_RT_FORMAT_YUV420, None), Some(NV12));
    let other = FormatMap { rt_format: 2, ..I420 };
    assert_eq!(choose_format_map(VA_RT_FORMAT_YUV420, Some(&other)), Some(NV12));
    assert_eq!(choose_format_map(2, Some(&other)), Some(other));
    assert_eq!(choose_format_map(4, Some(&other)), None);
}

#[test]
fn supported_formats_are_those_that_the_driver_maps() {
    let both = vec![image_format(0x1234), image_format(VA_FOURCC_I420), image_format(VA_FOURCC_NV12)];
    assert_eq!(
        select_supported_formats(VA_RT_FORMAT_YUV420, VA_RT_FORMAT_YUV420, &both).unwrap(),
        vec![NV12, I420]
    );
    let one = vec![image_format(VA_FOURCC_I420)];
    assert_eq!(select_supported_formats(VA_RT_FORMAT_YUV420, 0xff, &one).unwrap(), vec![I420]);
    assert_eq!(select_supported_formats(VA_RT_FORMAT_YUV420, 1, &vec![]).unwrap(), vec![]);
    assert_eq!(select_supported_formats(2, 3, &both).unwrap(), vec![]);
    assert!(matches!(
        select_supported_formats(VA_RT_FORMAT_YUV420, 2, &both),
        Err(StatelessBackendError::UnsupportedFormat)
    ));
    assert!(matches!(
        select_supported_formats(VA_RT_FORMAT_YUV420, 0x8000_0000, &both),
        Err(StatelessBackendError::UnsupportedFormat)
    ));
    assert!(is_rt_format_offered(3, 1));
    assert!(!is_rt_format_offered(2, 1));
    assert!(!is_rt_format_offered(0x8000_0000, 0x8000_0000));
}

#[test]
fn the_first_image_format_with_the_code_is_found() {
    let mut second = image_format(VA_FOURCC_NV12);
    second.depth = 7;
    let formats = vec![image_format(1), image_format(VA_FOURCC_NV12), second];
    assert_eq!(find_image_format(&formats, VA_FOURCC_NV12), Some(image_format(VA_FOURCC_NV12)));
    assert_eq!(find_image_format(&formats, VA_FOURCC_I420), None);
    assert_eq!(find_image_format(&vec![], 1), None);
}

#[test]
fn decoded_format_of_an_image_format() {
    assert_eq!(DecodedFormat::try_from(&image_format(VA_FOURCC_NV12)).unwrap(), DecodedFormat::NV12);
    assert_eq!(DecodedFormat::try_from(&image_format(VA_FOURCC_I420)).unwrap(), DecodedFormat::I420);
    assert!(matches!(
        DecodedFormat::try_from(&image_format(0x3231_5659)),
        Err(StatelessBackendError::UnsupportedFormat)
    ));
}

#[test]
fn frame_sizes() {
    assert_eq!(decoded_frame_size(DecodedFormat::NV12, 320, 240), 115200);
    assert_eq!(decoded_frame_size(DecodedFormat::I420, 320, 240), 115200);
    assert_eq!(decoded_frame_size(DecodedFormat::NV12, 3, 3), 9 + 4 * 2);
    assert_eq!(decoded_frame_size(DecodedFormat::I420, 1, 1), 1 + 2);
    assert_eq!(decoded_frame_size(DecodedFormat::NV12, 0, 5), 0);
    assert_eq!(decoded_frame_size(DecodedFormat::NV12, 5, 0), 0);
    assert_eq!(decoded_frame_size(DecodedFormat::NV12, 2, 1), 2 + 2);
}

/// An image of 3 by 3 pixels with rows of 5 bytes, whose byte at an index is the index.
fn image(fourcc: u32) -> Image {
    Image {
        format: image_format(fourcc),
        width: 3,
        height: 3,
        pitches: [5, 5, 5],
        offsets: [1, 20, 40],
        data: (0..60u8).collect(),
    }
}

#[test]
fn nv12_is_read_without_padding() {
    let image = image(VA_FOURCC_NV12);
    assert_eq!(image.image_size(), 17);
    let mut buffer = vec![0xffu8; 17];
    image.read(&mut buffer).unwrap();
    assert_eq!(
        buffer,
        vec![1, 2, 3, 6, 7, 8, 11, 12, 13, 20, 21, 22, 23, 25, 26, 27, 28]
    );
}

#[test]
fn i420_is_read_without_padding() {
    let image = image(VA_FOURCC_I420);
    assert_eq!(image.image_size(), 17);
    let mut buffer = vec![0xffu8; 17];
    image.read(&mut buffer).unwrap();
    assert_eq!(
        buffer,
        vec![1, 2, 3, 6, 7, 8, 11, 12, 13, 20, 21, 25, 26, 40, 41, 45, 46]
    );
}

#[test]
fn read_refuses_what_it_cannot_copy() {
    let nv12 = image(VA_FOURCC_NV12);
    for len in [0usize, 16, 18] {
        let mut buffer = vec![0xffu8; len];
        match nv12.read(&mut buffer) {
            Err(StatelessBackendError::Other(cause)) => assert_eq!(cause, "size mismatch"),
            other => panic!("expected a size mismatch, got {:?}", other),
        }
        assert!(buffer.iter().all(|&b| b == 0xff));
    }

    let unknown = image(0x3231_5659);
    let mut buffer = vec![0xffu8; 17];
    assert!(matches!(unknown.read(&mut buffer), Err(StatelessBackendError::UnsupportedFormat)));
    let mut buffer = vec![0xffu8; 3];
    assert!(matches!(unknown.read(&mut buffer), Err(StatelessBackendError::UnsupportedFormat)));

    // The chroma plane ends one byte after the data.
    let mut short = image(VA_FOURCC_NV12);
    short.data.truncate(28);
    let mut buffer = vec![0xffu8; 17];
    match short.read(&mut buffer) {
        Err(StatelessBackendError::Other(cause)) => {
            assert_eq!(cause, "image layout exceeds the mapped data")
        }
        other => panic!("expected a bad layout, got {:?}", other),
    }
    assert!(buffer.iter().all(|&b| b == 0xff));
    short.data.push(0);
    assert!(short.read(&mut buffer).is_ok());

    // Rows that are shorter than the picture is wide.
    let mut narrow = image(VA_FOURCC_I420);
    narrow.pitches = [2, 5, 5];
    assert!(matches!(narrow.read(&mut buffer), Err(StatelessBackendError::Other(_))));

    // An image without pixels has nothing to exceed.
    let empty = Image {
        format: image_format(VA_FOURCC_NV12),
        width: 0,
        height: 0,
        pitches: [0, 0, 0],
        offsets: [9, 9, 9],
        data: vec![],
    };
    assert_eq!(empty.image_size(), 0);
    assert!(empty.read(&mut []).is_ok());
}

#[test]
fn planes_are_copied_row_by_row() {
    let src: Vec<u8> = (0..64u8).collect();
    let mut dst = vec![0u8; 8 + 4];
    nv12_copy(&src, &mut dst, 4, 2, [8, 16, 0], [0, 32, 0]);
    assert_eq!(dst, vec![0, 1, 2, 3, 8, 9, 10, 11, 32, 33, 34, 35]);
    let mut dst = vec![0u8; 8 + 4];
    i420_copy(&src, &mut dst, 4, 2, [8, 16, 16], [0, 32, 48]);
    assert_eq!(dst, vec![0, 1, 2, 3, 8, 9, 10, 11, 32, 33, 48, 49]);
}

#[test]
fn the_pool_hands_surfaces_out_in_their_order() {
    let resolution = Resolution { width: 320, height: 240 };
    let mut pool =
        SurfacePoolHandle::new(vec![Surface::new(1), Surface::new(2), Surface::new(3)], resolution);
    assert_eq!(pool.coded_resolution(), resolution);
    assert_eq!(pool.num_surfaces_left(), 3);
    assert_eq!(pool.get_surface().unwrap().id(), 1);
    assert_eq!(pool.get_surface().unwrap().id(), 2);
    pool.add_surface(Surface::new(1));
    assert_eq!(pool.num_surfaces_left(), 2);
    assert_eq!(pool.get_surface().unwrap().id(), 3);
    assert_eq!(pool.get_surface().unwrap().id(), 1);
    assert!(pool.get_surface().is_none());
    assert_eq!(pool.num_surfaces_left(), 0);
    assert_eq!(pool.coded_resolution(), resolution);
    let mut empty = SurfacePoolHandle::new(vec![], resolution);
    assert!(empty.get_surface().is_none());
}

#[test]
fn a_picture_keeps_its_surface_and_timestamp() {
    let picture = Picture::new(42, Surface::new(7));
    assert_eq!(picture.timestamp(), 42);
    assert_eq!(picture.surface_id(), 7);
    assert_eq!(picture.take_surface().id(), 7);
}

fn pending_frame() -> GenericBackendHandle {
    GenericBackendHandle {
        state: PictureState::Pending(Picture::new(42, Surface::new(7))),
        coded_resolution: Resolution { width: 320, height: 240 },
        display_resolution: Resolution { width: 318, height: 238 },
        map_format: image_format(VA_FOURCC_NV12),
        surface_pool: 0,
        holders: 1,
    }
}

#[test]
fn a_frame_becomes_ready_when_the_wait_succeeds() {
    let mut frame = pending_frame();
    assert!(frame.picture().is_none());
    assert_eq!(frame.timestamp(), 42);
    assert_eq!(frame.surface_id(), 7);

    match frame.complete_sync(Err("busy".to_string())) {
        Err(StatelessBackendError::Other(cause)) => assert_eq!(cause, "busy"),
        other => panic!("expected the driver's error, got {:?}", other),
    }
    assert!(matches!(frame.state, PictureState::Pending(_)));

    frame.complete_sync(Ok(())).unwrap();
    assert!(matches!(frame.state, PictureState::Ready(_)));
    assert_eq!(frame.picture().unwrap().surface_id(), 7);
    // Once more changes nothing.
    frame.complete_sync(Ok(())).unwrap();
    assert!(matches!(frame.state, PictureState::Ready(_)));
    frame.mark_ready();
    assert_eq!(frame.timestamp(), 42);
    assert_eq!(frame.holders, 1);
}

#[test]
fn the_status_of_a_surface() {
    assert_eq!(surface_is_ready(Ok(4)).unwrap(), true);
    assert_eq!(surface_is_ready(Ok(1)).unwrap(), false);
    assert_eq!(surface_is_ready(Ok(0)).unwrap(), false);
    match surface_is_ready(Err("gone".to_string())) {
        Err(StatelessBackendError::Other(cause)) => assert_eq!(cause, "gone"),
        other => panic!("expected the driver's error, got {:?}", other),
    }
}

#[test]
fn a_handle_has_no_display_order_until_it_is_set() {
    let resolution = Resolution { width: 320, height: 240 };
    let mut handle = DecodedHandle::new(3, 9, resolution);
    assert_eq!(handle.display_order(), None);
    assert_eq!(handle.timestamp(), 9);
    assert_eq!(handle.display_resolution(), resolution);
    handle.set_display_order(5);
    assert_eq!(handle.display_order(), Some(5));
    assert_eq!(handle.inner, 3);
}

#[test]
fn metadata_is_missing_before_the_stream_is_parsed() {
    let state = StreamMetadataState::Unparsed;
    match state.get_parsed() {
        Err(StatelessBackendError::Other(cause)) => assert_eq!(cause, "Stream metadata not parsed yet"),
        Ok(_) => panic!("nothing was parsed"),
        Err(other) => panic!("expected another error than {:?}", other),
    }
}

#[test]
fn the_names_of_the_negotiation_states() {
    assert_eq!(NegotiationStatus::<u8>::default().name(), "NonNegotiated");
    assert_eq!(NegotiationStatus::Possible(3u8).name(), "Possible");
    assert_eq!(NegotiationStatus::<u8>::Negotiated.name(), "Negotiated");
}

#[test]
fn error_messages() {
    assert_eq!(
        StatelessBackendError::OutOfResources.message(),
        "not enough resources to proceed with the operation now"
    );
    assert_eq!(StatelessBackendError::ResourceNotReady.message(), "this resource is not ready");
    assert_eq!(StatelessBackendError::UnsupportedFormat.message(), "this format is not supported");
    assert_eq!(
        StatelessBackendError::NegotiationFailed("why".to_string()).message(),
        "negotiation failed"
    );
    assert_eq!(StatelessBackendError::Other("the cause".to_string()).message(), "the cause");
    assert_eq!(
        DecodeError::CheckEvents.message(),
        "cannot accept more input until pending events are processed"
    );
    assert_eq!(
        DecodeError::DecoderError("bad frame".to_string()).message(),
        "decoder error: bad frame"
    );
    assert_eq!(
        DecodeError::BackendError(StatelessBackendError::UnsupportedFormat).message(),
        "backend error: this format is not supported"
    );
}

#[test]
fn out_of_resources_asks_to_check_the_events() {
    assert!(matches!(
        DecodeError::from(StatelessBackendError::OutOfResources),
        DecodeError::CheckEvents
    ));
    assert!(matches!(
        DecodeError::from(StatelessBackendError::ResourceNotReady),
        DecodeError::BackendError(StatelessBackendError::ResourceNotReady)
    ));
    match DecodeError::from(StatelessBackendError::Other("x".to_string())) {
        DecodeError::BackendError(StatelessBackendError::Other(cause)) => assert_eq!(cause, "x"),
        other => panic!("expected a backend error, got {:?}", other),
    }
}

fn header(key_frame: bool, width: u16, height: u16) -> Header {
    Header { key_frame, width, height, ..Default::default() }
}

#[test]
fn copy_flags() {
    let mut hdr = header(false, 320, 240);
    assert!(has_valid_copy_flags(&hdr));
    hdr.copy_buffer_to_alternate = 2;
    hdr.copy_buffer_to_golden = 2;
    assert!(has_valid_copy_flags(&hdr));
    hdr.copy_buffer_to_alternate = 3;
    assert!(!has_valid_copy_flags(&hdr));
    hdr.refresh_alternate_frame = true;
    assert!(has_valid_copy_flags(&hdr));
    hdr.copy_buffer_to_golden = 255;
    assert!(!has_valid_copy_flags(&hdr));
    hdr.key_frame = true;
    assert!(has_valid_copy_flags(&hdr));
    assert!(hdr.key_frame() && !hdr.show_frame() && !hdr.refresh_last());
    assert!(hdr.refresh_alternate_frame() && !hdr.refresh_golden_frame());
    assert_eq!((hdr.copy_buffer_to_golden(), hdr.copy_buffer_to_alternate()), (255, 3));
    assert_eq!((hdr.width(), hdr.height()), (320, 240));
}

#[test]
fn a_change_of_resolution_is_seen() {
    let coded = Resolution { width: 320, height: 240 };
    assert!(!negotiation_possible(coded, &header(true, 320, 240)));
    assert!(negotiation_possible(coded, &header(true, 321, 240)));
    assert!(negotiation_possible(coded, &header(false, 320, 0)));
    assert!(negotiation_possible(Resolution::default(), &header(true, 320, 240)));
}

#[test]
fn a_vp8_stream_asks_for_seven_surfaces_of_its_size() {
    let hdr = header(true, 320, 240);
    assert_eq!(hdr.va_profile().unwrap(), 14);
    assert_eq!(hdr.rt_format().unwrap(), VA_RT_FORMAT_YUV420);
    assert_eq!(hdr.min_num_surfaces(), 7);
    assert_eq!(hdr.coded_size(), (320, 240));
    assert_eq!(hdr.visible_rect(), ((0, 0), (320, 240)));
    let params = stream_params(&hdr, None).unwrap();
    assert_eq!(params.profile, 14);
    assert_eq!(params.rt_format, VA_RT_FORMAT_YUV420);
    assert_eq!(params.coded_resolution, Resolution { width: 320, height: 240 });
    assert_eq!(params.display_resolution, Resolution { width: 320, height: 240 });
    assert_eq!(params.num_surfaces, 7);
    assert_eq!(params.format_map, NV12);
    assert_eq!(stream_params(&hdr, Some(&I420)).unwrap().format_map, I420);
}

/// A stream whose description the test sets.
#[derive(Clone, Copy)]
struct TestStream {
    profile: Option<i32>,
    rt_format: Option<u32>,
    surfaces: usize,
    coded: (u32, u32),
    visible: ((u32, u32), (u32, u32)),
}

impl StreamInfo for TestStream {
    fn spec_va_profile(&self) -> Option<i32> {
        self.profile
    }

    fn spec_rt_format(&self) -> Option<u32> {
        self.rt_format
    }

    fn spec_min_num_surfaces(&self) -> usize {
        self.surfaces
    }

    fn spec_coded_size(&self) -> (u32, u32) {
        self.coded
    }

    fn spec_visible_rect(&self) -> ((u32, u32), (u32, u32)) {
        self.visible
    }

    fn va_profile(&self) -> Result<i32, String> {
        self.profile.ok_or("no profile".to_string())
    }

    fn rt_format(&self) -> Result<u32, String> {
        self.rt_format.ok_or("no format".to_string())
    }

    fn min_num_surfaces(&self) -> usize {
        self.surfaces
    }

    fn coded_size(&self) -> (u32, u32) {
        self.coded
    }

    fn visible_rect(&self) -> ((u32, u32), (u32, u32)) {
        self.visible
    }
}

#[test]
fn stream_parameters() {
    let stream = TestStream {
        profile: Some(3),
        rt_format: Some(VA_RT_FORMAT_YUV420),
        surfaces: 4,
        coded: (1920, 1088),
        visible: ((8, 4), (1928, 1084)),
    };
    let params = stream_params(&stream, None).unwrap();
    assert_eq!(params.profile, 3);
    assert_eq!(params.coded_resolution, Resolution { width: 1920, height: 1088 });
    assert_eq!(params.display_resolution, Resolution { width: 1920, height: 1080 });
    assert_eq!(params.num_surfaces, 4);

    match stream_params(&TestStream { profile: None, ..stream }, None) {
        Err(StatelessBackendError::Other(cause)) => assert_eq!(cause, "no profile"),
        other => panic!("expected an error, got {:?}", other),
    }
    match stream_params(&TestStream { rt_format: None, ..stream }, None) {
        Err(StatelessBackendError::Other(cause)) => assert_eq!(cause, "no format"),
        other => panic!("expected an error, got {:?}", other),
    }
    assert!(matches!(
        stream_params(&TestStream { rt_format: Some(2), ..stream }, None),
        Err(StatelessBackendError::UnsupportedFormat)
    ));
    assert!(matches!(
        stream_params(&TestStream { coded: (0x8000_0000, 16), ..stream }, None),
        Err(StatelessBackendError::Other(_))
    ));
    assert!(matches!(
        stream_params(&TestStream { coded: (16, 0xffff_ffff), ..stream }, None),
        Err(StatelessBackendError::Other(_))
    ));
    assert!(stream_params(&TestStream { coded: (0x7fff_ffff, 0), ..stream }, None).is_ok());
    assert!(matches!(
        stream_params(&TestStream { visible: ((9, 0), (8, 8)), ..stream }, None),
        Err(StatelessBackendError::Other(_))
    ));
    assert!(matches!(
        stream_params(&TestStream { visible: ((0, 9), (8, 8)), ..stream }, None),
        Err(StatelessBackendError::Other(_))
    ));
    if usize::BITS > 32 {
        assert!(matches!(
            stream_params(&TestStream { surfaces: 0x1_0000_0000u64 as usize, ..stream }, None),
            Err(StatelessBackendError::Other(_))
        ));
    }
}

#[test]
fn the_map_format_is_the_first_that_the_driver_offers_with_the_code() {
    let mut second = image_format(VA_FOURCC_I420);
    second.depth = 9;
    let offered = vec![
        image_format(0x1234),
        image_format(VA_FOURCC_I420),
        second,
        image_format(VA_FOURCC_NV12),
    ];
    assert_eq!(
        select_map_format(VA_RT_FORMAT_YUV420, VA_FOURCC_NV12, 3, &offered).unwrap(),
        image_format(VA_FOURCC_NV12)
    );
    assert_eq!(
        select_map_format(VA_RT_FORMAT_YUV420, VA_FOURCC_I420, 0xff, &offered).unwrap(),
        image_format(VA_FOURCC_I420)
    );
    // The driver does not offer the surface format.
    assert!(matches!(
        select_map_format(VA_RT_FORMAT_YUV420, VA_FOURCC_NV12, 2, &offered),
        Err(StatelessBackendError::UnsupportedFormat)
    ));
    assert!(matches!(
        select_map_format(VA_RT_FORMAT_YUV420, VA_FOURCC_NV12, 0x8000_0000, &offered),
        Err(StatelessBackendError::UnsupportedFormat)
    ));
    // The driver cannot map the layout.
    let other = vec![image_format(VA_FOURCC_I420)];
    assert!(matches!(
        select_map_format(VA_RT_FORMAT_YUV420, VA_FOURCC_NV12, 1, &other),
        Err(StatelessBackendError::UnsupportedFormat)
    ));
    assert!(matches!(
        select_map_format(VA_RT_FORMAT_YUV420, VA_FOURCC_NV12, 1, &vec![]),
        Err(StatelessBackendError::UnsupportedFormat)
    ));
}

#[test]
fn the_driver_is_held_to_the_number_of_surfaces() {
    assert!(accept_surface_count(7, 7).is_ok());
    assert!(accept_surface_count(0, 0).is_ok());
    for allocated in [0usize, 6, 8] {
        match accept_surface_count(allocated, 7) {
            Err(StatelessBackendError::Other(cause)) => {
                assert_eq!(cause, "the driver allocated another number of surfaces")
            }
            other => panic!("expected an error, got {:?}", other),
        }
    }
}

#[test]
fn a_format_is_requested_from_those_that_the_stream_has() {
    let both = vec![DecodedFormat::NV12, DecodedFormat::I420];
    assert_eq!(requested_entry(&both, DecodedFormat::I420).unwrap(), I420);
    assert_eq!(requested_entry(&both, DecodedFormat::NV12).unwrap(), NV12);
    assert_eq!(
        requested_entry(&vec![DecodedFormat::I420], DecodedFormat::I420).unwrap(),
        format_map_for(DecodedFormat::I420)
    );
    for supported in [vec![], vec![DecodedFormat::NV12]] {
        match requested_entry(&supported, DecodedFormat::I420) {
            Err(StatelessBackendError::NegotiationFailed(cause)) => {
                assert_eq!(cause, "The requested format is unsupported.")
            }
            other => panic!("expected a failed negotiation, got {:?}", other),
        }
    }
}
