//! The decoder driven end to end, over a driver and a parser that the tests script.

use cros_codecs::decoder::stateless::DecodeError;
use cros_codecs::decoder::stateless::StatelessBackendError;
use cros_codecs::decoder::stateless::StatelessDecoderFormatNegotiator;
use cros_codecs::decoder::stateless::StatelessVideoDecoder;
use cros_codecs::decoder::DecoderEvent;
use cros_codecs::decoders::vp8::backends::Vp8Display;
use cros_codecs::decoders::vp8::backends::NUM_SURFACES;
use cros_codecs::decoders::vp8::decoder::submission_parser;
use cros_codecs::decoders::vp8::decoder::Decoder;
use cros_codecs::decoders::vp8::parser::Frame;
use cros_codecs::decoders::vp8::parser::Header;
use cros_codecs::decoders::vp8::parser::Parser;
use cros_codecs::decoders::BlockingMode;
use cros_codecs::utils::vaapi::DecodedHandle;
use cros_codecs::utils::vaapi::Display;
use cros_codecs::utils::vaapi::GenericBackendHandle;
use cros_codecs::utils::vaapi::Image;
use cros_codecs::utils::vaapi::ImageFormat;
use cros_codecs::utils::vaapi::Picture;
use cros_codecs::utils::vaapi::PictureState;
use cros_codecs::utils::vaapi::StreamInfo;
use cros_codecs::utils::vaapi::Surface;
use cros_codecs::utils::vaapi::VaapiBackend;
use cros_codecs::utils::vaapi::VA_FOURCC_I420;
use cros_codecs::utils::vaapi::VA_FOURCC_NV12;
use cros_codecs::utils::vaapi::VA_INVALID_SURFACE;
use cros_codecs::utils::vaapi::VA_RT_FORMAT_YUV420;
use cros_codecs::utils::vaapi::VA_SURFACE_READY;
use cros_codecs::DecodedFormat;
use cros_codecs::Resolution;

/// A parser of a test encoding: a frame is seven bytes, the flags, the width and the height
/// as little-endian 16-bit numbers, and the two copy flags.
#[derive(Clone, Default)]
struct TestParser {
    parsed: usize,
}

const KEY: u8 = 1;
const SHOW: u8 = 2;
const REFRESH_LAST: u8 = 4;
const REFRESH_GOLDEN: u8 = 8;
const REFRESH_ALT: u8 = 16;

impl Parser for TestParser {
    fn parse_frame<'a>(&mut self, bitstream: &'a [u8]) -> Result<Frame<'a>, String> {
        if bitstream.len() != 7 {
            return Err(format!("a frame of {} bytes", bitstream.len()));
        }
        self.parsed += 1;
        let flags = bitstream[0];
        Ok(Frame {
            bitstream,
            header: Header {
                key_frame: flags & KEY != 0,
                show_frame: flags & SHOW != 0,
                width: u16::from_le_bytes([bitstream[1], bitstream[2]]),
                height: u16::from_le_bytes([bitstream[3], bitstream[4]]),
                refresh_last: flags & REFRESH_LAST != 0,
                refresh_golden_frame: flags & REFRESH_GOLDEN != 0,
                refresh_alternate_frame: flags & REFRESH_ALT != 0,
                copy_buffer_to_golden: bitstream[5],
                copy_buffer_to_alternate: bitstream[6],
            },
        })
    }
}

fn frame(flags: u8, width: u16, height: u16, copy_golden: u8, copy_alt: u8) -> Vec<u8> {
    let w = width.to_le_bytes();
    let h = height.to_le_bytes();
    vec![flags, w[0], w[1], h[0], h[1], copy_golden, copy_alt]
}

fn key_frame(width: u16, height: u16) -> Vec<u8> {
    frame(KEY | SHOW, width, height, 0, 0)
}

fn inter_frame(width: u16, height: u16) -> Vec<u8> {
    frame(SHOW | REFRESH_LAST, width, height, 0, 0)
}

/// A picture that the driver was asked to prepare.
#[derive(Clone, Debug, PartialEq)]
struct Prepared {
    surface: u32,
    timestamp: u64,
    last_ref: u32,
    golden_ref: u32,
    alt_ref: u32,
    coded_resolution: Resolution,
    /// The number of frames that the parser had parsed whose state came with the picture.
    parsed: usize,
}

/// A driver that keeps a record of what it is asked, and completes a picture when it is
/// waited for.
struct TestDisplay {
    image_formats: Vec<ImageFormat>,
    rt_attribute: u32,
    next_surface: u32,
    next_object: u32,
    created: Vec<(u32, u32, u32, u32)>,
    destroyed: Vec<u32>,
    destroyed_contexts: Vec<u32>,
    rendering: Vec<u32>,
    prepared: Vec<Prepared>,
    drawn: Vec<(u32, u64)>,
    syncs: Vec<u32>,
    queries: usize,
    fail_sync: bool,
    fail_render: bool,
    fail_create_surfaces: bool,
    fail_prepare: bool,
    fail_query: bool,
    short_surfaces: bool,
}

fn image_format(fourcc: u32) -> ImageFormat {
    ImageFormat {
        fourcc,
        byte_order: 1,
        bits_per_pixel: 12,
        depth: 0,
        red_mask: 0,
        green_mask: 0,
        blue_mask: 0,
        alpha_mask: 0,
    }
}

impl TestDisplay {
    fn new() -> Self {
        TestDisplay {
            image_formats: vec![image_format(VA_FOURCC_NV12), image_format(VA_FOURCC_I420)],
            rt_attribute: VA_RT_FORMAT_YUV420,
            next_surface: 100,
            next_object: 1,
            created: vec![],
            destroyed: vec![],
            destroyed_contexts: vec![],
            rendering: vec![],
            prepared: vec![],
            drawn: vec![],
            syncs: vec![],
            queries: 0,
            fail_sync: false,
            fail_render: false,
            fail_create_surfaces: false,
            fail_prepare: false,
            fail_query: false,
            short_surfaces: false,
        }
    }

    /// The hardware is done with `surface`.
    fn complete(&mut self, surface: u32) {
        self.rendering.retain(|&s| s != surface);
    }
}

impl Display for TestDisplay {
    fn get_config_attributes(
        &mut self,
        _profile: i32,
        _entrypoint: u32,
        _attribute_type: u32,
    ) -> Result<u32, String> {
        Ok(self.rt_attribute)
    }

    fn query_image_formats(&mut self) -> Result<Vec<ImageFormat>, String> {
        Ok(self.image_formats.clone())
    }

    fn create_config(&mut self, _rt_format: u32, _profile: i32, _entrypoint: u32) -> Result<u32, String> {
        self.next_object += 1;
        Ok(self.next_object)
    }

    fn destroy_config(&mut self, _config: u32) {}

    fn create_surfaces(
        &mut self,
        rt_format: u32,
        va_fourcc: u32,
        width: u32,
        height: u32,
        num_surfaces: u32,
    ) -> Result<Vec<Surface>, String> {
        if self.fail_create_surfaces {
            return Err("no memory for surfaces".to_string());
        }
        let count = if self.short_surfaces { num_surfaces - 1 } else { num_surfaces };
        let mut surfaces = vec![];
        for _ in 0..count {
            surfaces.push(Surface::new(self.next_surface));
            self.created.push((self.next_surface, rt_format, va_fourcc, width * 0x1_0000 + height));
            self.next_surface += 1;
        }
        Ok(surfaces)
    }

    fn destroy_surface(&mut self, surface: Surface) {
        self.destroyed.push(surface.id());
    }

    fn create_context(
        &mut self,
        _config: u32,
        _coded_width: i32,
        _coded_height: i32,
        _surfaces: &Vec<Surface>,
    ) -> Result<u32, String> {
        self.next_object += 1;
        Ok(self.next_object)
    }

    fn destroy_context(&mut self, context: u32) {
        self.destroyed_contexts.push(context);
    }

    fn begin_picture(&mut self, _context: u32, _surface: u32) -> Result<(), String> {
        Ok(())
    }

    fn render_picture(&mut self, _context: u32, _surface: u32) -> Result<(), String> {
        if self.fail_render {
            return Err("render failed".to_string());
        }
        Ok(())
    }

    fn end_picture(&mut self, _context: u32, surface: u32) -> Result<(), String> {
        self.rendering.push(surface);
        Ok(())
    }

    fn sync_surface(&mut self, surface: u32) -> Result<(), String> {
        self.syncs.push(surface);
        if self.fail_sync {
            return Err("sync failed".to_string());
        }
        self.complete(surface);
        Ok(())
    }

    fn query_surface_status(&mut self, surface: u32) -> Result<u32, String> {
        self.queries += 1;
        if self.fail_query {
            return Err("query failed".to_string());
        }
        if self.rendering.contains(&surface) {
            Ok(1)
        } else {
            Ok(VA_SURFACE_READY)
        }
    }

    fn create_image(
        &mut self,
        surface: u32,
        format: &ImageFormat,
        width: u32,
        height: u32,
    ) -> Result<Image, String> {
        // The picture is drawn from the timestamp of the frame that was last decoded
        // into the surface. Rows of the luma plane are 8 bytes longer than the picture is
        // wide, and the chroma samples follow 16 bytes after the luma plane.
        let seed = match self.drawn.iter().rev().find(|(s, _)| *s == surface) {
            Some((_, timestamp)) => *timestamp as usize,
            None => return Err("nothing was decoded into the surface".to_string()),
        };
        let width = width as usize;
        let height = height as usize;
        let pitch = width + 8;
        let chroma_rows = (height + 1) / 2;
        let chroma_offset = pitch * height + 16;
        let mut data = vec![0xeeu8; chroma_offset + 2 * pitch * chroma_rows];
        for row in 0..height {
            for col in 0..width {
                data[row * pitch + col] = (seed + row + col) as u8;
            }
        }
        let (pitches, offsets) = if format.fourcc == VA_FOURCC_NV12 {
            let aligned = (width + 1) / 2 * 2;
            for row in 0..chroma_rows {
                for col in 0..aligned {
                    data[chroma_offset + row * pitch + col] = (200 + row + col) as u8;
                }
            }
            ([pitch as u32, pitch as u32, 0], [0, chroma_offset as u32, 0])
        } else {
            let chroma_width = (width + 1) / 2;
            let v_offset = chroma_offset + pitch * chroma_rows;
            for row in 0..chroma_rows {
                for col in 0..chroma_width {
                    data[chroma_offset + row * pitch + col] = (200 + row + col) as u8;
                    data[v_offset + row * pitch + col] = (100 + row + col) as u8;
                }
            }
            (
                [pitch as u32, pitch as u32, pitch as u32],
                [0, chroma_offset as u32, v_offset as u32],
            )
        };
        Ok(Image {
            format: *format,
            width: width as u16,
            height: height as u16,
            pitches,
            offsets,
            data,
        })
    }
}

impl Vp8Display<TestParser> for TestDisplay {
    fn prepare_picture(
        &mut self,
        _context: u32,
        surface: u32,
        coded_resolution: Resolution,
        _header: &Header,
        last_ref: u32,
        golden_ref: u32,
        alt_ref: u32,
        _bitstream: &[u8],
        parser: &TestParser,
        timestamp: u64,
    ) -> Result<(), String> {
        if self.fail_prepare {
            return Err("no buffer".to_string());
        }
        self.drawn.push((surface, timestamp));
        self.prepared.push(Prepared {
            surface,
            timestamp,
            last_ref,
            golden_ref,
            alt_ref,
            coded_resolution,
            parsed: parser.parsed,
        });
        Ok(())
    }
}

type TestDecoder = Decoder<TestParser, TestDisplay>;

fn decoder(blocking_mode: BlockingMode) -> TestDecoder {
    Decoder::new(VaapiBackend::new(TestDisplay::new()), blocking_mode, TestParser::default())
        .unwrap()
}

fn orders(frames: &[DecodedHandle]) -> Vec<Option<u64>> {
    frames.iter().map(|frame| frame.display_order()).collect()
}

fn timestamps(frames: &[DecodedHandle]) -> Vec<u64> {
    frames.iter().map(|frame| frame.timestamp()).collect()
}

/// Ends the negotiation as a client does that is content with the format.
fn accept(decoder: &mut TestDecoder, header: Header) {
    let negotiator = StatelessDecoderFormatNegotiator::new(
        decoder,
        header,
        |decoder: &mut TestDecoder, hint: &Header| decoder.apply_format(hint),
    );
    negotiator.finish();
}

/// Wraps frames into a stream: a header of 32 bytes, then each frame after its length in
/// four bytes and its timestamp in eight.
fn ivf(frames: &[Vec<u8>]) -> Vec<u8> {
    let mut stream = vec![0u8; 32];
    for (i, frame) in frames.iter().enumerate() {
        stream.extend_from_slice(&(frame.len() as u32).to_le_bytes());
        stream.extend_from_slice(&(i as u64).to_le_bytes());
        stream.extend_from_slice(frame);
    }
    stream
}

/// Reads the next packet of a stream, or nothing at the end of the stream.
fn read_ivf_packet(stream: &[u8], position: &mut usize) -> Option<Vec<u8>> {
    if *position >= stream.len() {
        return None;
    }
    let mut len = [0u8; 4];
    len.copy_from_slice(&stream[*position..*position + 4]);
    let len = u32::from_le_bytes(len) as usize;
    // Skip the length and the timestamp.
    *position += 12;
    let packet = stream[*position..*position + len].to_vec();
    *position += len;
    Some(packet)
}

/// Decodes a stream from its start to its end and hands every frame to `on_new_frame`.
fn vp8_decoding_loop(
    decoder: &mut TestDecoder,
    test_stream: &[u8],
    on_new_frame: &mut dyn FnMut(&mut TestDecoder, DecodedHandle),
) {
    let mut position = 32;
    let mut frame_num = 0;
    while let Some(packet) = read_ivf_packet(test_stream, &mut position) {
        for frame in decoder.decode(frame_num, &packet).unwrap() {
            on_new_frame(decoder, frame);
            frame_num += 1;
        }
    }
    for frame in decoder.flush().unwrap() {
        on_new_frame(decoder, frame);
        frame_num += 1;
    }
}

/// A stream of 249 frames at 320 by 240: a key frame, then frames that each refer to the
/// one before.
fn stream_25fps() -> Vec<u8> {
    let mut frames = vec![key_frame(320, 240)];
    for _ in 1..249 {
        frames.push(inter_frame(320, 240));
    }
    ivf(&frames)
}

fn test_decoder_dummy(stream: &[u8], expected_frames: usize, blocking_mode: BlockingMode) {
    let mut decoder = decoder(blocking_mode);
    let mut delivered = vec![];
    vp8_decoding_loop(&mut decoder, stream, &mut |decoder, handle| {
        assert!(decoder.handle_is_ready(&handle), "a frame was handed out before it was ready");
        delivered.push(handle.display_order());
        decoder.release(handle);
    });
    assert_eq!(delivered.len(), expected_frames, "decoded another number of frames than expected");
    let expected: Vec<Option<u64>> = (0..expected_frames as u64).map(Some).collect();
    assert_eq!(delivered, expected);
}

#[test]
fn test_25fps_block() {
    test_decoder_dummy(&stream_25fps(), 249, BlockingMode::Blocking);
}

#[test]
fn test_25fps_nonblock() {
    test_decoder_dummy(&stream_25fps(), 249, BlockingMode::NonBlocking);
}

#[test]
fn blocking_and_non_blocking_deliver_the_same_frames() {
    let mut packets = vec![key_frame(320, 240)];
    for i in 1..249u32 {
        // Every fifth frame is kept as a reference only.
        let flags = if i % 5 == 0 { REFRESH_LAST | REFRESH_GOLDEN } else { SHOW | REFRESH_LAST };
        packets.push(frame(flags, 320, 240, 0, 0));
    }
    let mut results = vec![];
    for mode in [BlockingMode::Blocking, BlockingMode::NonBlocking] {
        let mut decoder = decoder(mode);
        let mut delivered = vec![];
        let mut deliver = |decoder: &mut TestDecoder, frames: Vec<DecodedHandle>| {
            for handle in frames {
                assert!(decoder.handle_is_ready(&handle));
                let image = decoder.map(&handle).unwrap();
                let mut pixels = vec![0u8; image.image_size()];
                image.read(&mut pixels).unwrap();
                delivered.push((handle.display_order(), handle.timestamp(), pixels[0], pixels[321]));
                decoder.release(handle);
            }
        };
        let mut refused = 0;
        for (timestamp, packet) in packets.iter().enumerate() {
            let frames = loop {
                match decoder.decode(timestamp as u64, packet) {
                    Ok(frames) => break frames,
                    Err(DecodeError::CheckEvents) => {
                        // No surface is free: wait for the hardware, and submit the same
                        // input again.
                        refused += 1;
                        for handle in decoder.poll(BlockingMode::Blocking).unwrap() {
                            decoder.release(handle);
                        }
                    }
                    Err(error) => panic!("{}", error.message()),
                }
            };
            deliver(&mut decoder, frames);
        }
        let frames = decoder.flush().unwrap();
        deliver(&mut decoder, frames);
        assert_eq!(refused > 0, mode == BlockingMode::NonBlocking);
        assert_eq!(decoder.parser.parsed, 249);
        results.push(delivered);
    }
    assert_eq!(results[0].len(), 249 - 49);
    assert_eq!(results[0], results[1]);
    for (place, (order, timestamp, first, second)) in results[0].iter().enumerate() {
        assert_eq!(*order, Some(place as u64));
        assert!(*timestamp == 0 || timestamp % 5 != 0);
        assert_eq!(*first, *timestamp as u8);
        assert_eq!(*second, (*timestamp + 2) as u8);
    }
}

#[test]
fn key_frame_handshake() {
    let mut decoder = decoder(BlockingMode::Blocking);
    let key = key_frame(320, 240);

    assert!(!decoder.negotiation_possible());
    assert_eq!(decoder.num_resources_left(), None);
    assert_eq!(decoder.format(), None);

    let frames = decoder.decode(0, &key).unwrap();
    assert!(frames.is_empty());
    assert!(decoder.negotiation_possible());
    assert_eq!(decoder.format(), Some(DecodedFormat::NV12));
    assert_eq!(decoder.coded_resolution(), Some(Resolution { width: 320, height: 240 }));
    assert_eq!(decoder.num_resources_total(), NUM_SURFACES);
    assert_eq!(decoder.num_resources_left(), Some(NUM_SURFACES - 1));

    let header = match decoder.next_event() {
        Some(DecoderEvent::FormatChanged(header)) => header,
        _ => panic!("the start of the sequence was not reported"),
    };
    assert_eq!((header.width, header.height), (320, 240));
    accept(&mut decoder, header);
    assert!(!decoder.negotiation_possible());
    assert_eq!(decoder.format(), Some(DecodedFormat::NV12));
    assert_eq!(decoder.num_resources_left(), Some(NUM_SURFACES));
    // The negotiation is over: the format stays.
    match decoder.try_format(DecodedFormat::I420) {
        Err(StatelessBackendError::NegotiationFailed(cause)) => {
            assert_eq!(cause, "Negotiation is not possible at this stage")
        }
        other => panic!("expected a failed negotiation, got {:?}", other),
    }
    match decoder.backend.try_format(DecodedFormat::I420) {
        Err(StatelessBackendError::NegotiationFailed(cause)) => {
            assert_eq!(cause, "Negotiation is not possible at this stage Negotiated")
        }
        other => panic!("expected a failed negotiation, got {:?}", other),
    }
    assert_eq!(decoder.format(), Some(DecodedFormat::NV12));
    assert_eq!(decoder.backend.display.created.len(), NUM_SURFACES);

    let mut frames = decoder.decode(0, &key).unwrap();
    assert_eq!(frames.len(), 1);
    let h0 = frames.pop().unwrap();
    assert_eq!(h0.display_order(), Some(0));
    assert_eq!(h0.timestamp(), 0);
    assert_eq!(h0.display_resolution(), Resolution { width: 320, height: 240 });
    assert!(decoder.handle_is_ready(&h0));

    let image = decoder.map(&h0).unwrap();
    assert_eq!(image.image_size(), 320 * 240 * 3 / 2);
    let mut pixels = vec![0u8; image.image_size()];
    image.read(&mut pixels).unwrap();
    for row in [0usize, 1, 239] {
        for col in [0usize, 1, 319] {
            assert_eq!(pixels[row * 320 + col], (row + col) as u8);
        }
    }
    for row in [0usize, 119] {
        for col in [0usize, 319] {
            assert_eq!(pixels[320 * 240 + row * 320 + col], (200 + row + col) as u8);
        }
    }
    assert_eq!(decoder.backend.display.prepared.len(), 1);
}

#[test]
fn accept_format_ends_the_negotiation_with_the_default_format() {
    let mut decoder = decoder(BlockingMode::Blocking);
    decoder.decode(0, &key_frame(320, 240)).unwrap();
    assert!(decoder.negotiation_possible());
    decoder.accept_format();
    assert!(!decoder.negotiation_possible());
    assert_eq!(decoder.format(), Some(DecodedFormat::NV12));
    assert!(decoder.backend.display.prepared.is_empty());
    // Once more changes nothing.
    decoder.accept_format();
    assert!(!decoder.negotiation_possible());
    assert_eq!(decoder.coded_resolution(), Some(Resolution { width: 320, height: 240 }));
}

#[test]
fn decode_replays_the_key_frame_without_a_negotiator() {
    let mut decoder = decoder(BlockingMode::Blocking);
    assert!(decoder.decode(10, &key_frame(320, 240)).unwrap().is_empty());
    let frames = decoder.decode(11, &inter_frame(320, 240)).unwrap();
    assert_eq!(timestamps(&frames), vec![10, 11]);
    assert_eq!(orders(&frames), vec![Some(0), Some(1)]);
    assert!(!decoder.negotiation_possible());
    let prepared = &decoder.backend.display.prepared;
    assert_eq!(prepared.len(), 2);
    // The key frame refers to no frame, and the second frame to the key frame.
    assert_eq!(
        (prepared[0].last_ref, prepared[0].golden_ref, prepared[0].alt_ref),
        (VA_INVALID_SURFACE, VA_INVALID_SURFACE, VA_INVALID_SURFACE)
    );
    assert_eq!(
        (prepared[1].last_ref, prepared[1].golden_ref, prepared[1].alt_ref),
        (prepared[0].surface, prepared[0].surface, prepared[0].surface)
    );
}

#[test]
fn frames_before_the_first_key_frame_are_passed_over() {
    let mut decoder = decoder(BlockingMode::Blocking);
    assert!(decoder.decode(0, &inter_frame(320, 240)).unwrap().is_empty());
    assert!(!decoder.negotiation_possible());
    assert_eq!(decoder.coded_resolution(), None);
    assert_eq!(decoder.num_resources_total(), 0);
    assert!(decoder.backend.display.created.is_empty());
    // The parser has seen the frame.
    assert_eq!(decoder.parser.parsed, 1);
}

#[test]
fn resolution_change() {
    let mut decoder = decoder(BlockingMode::Blocking);
    let mut held = vec![];
    held.extend(decoder.decode(0, &key_frame(320, 240)).unwrap());
    held.extend(decoder.decode(1, &inter_frame(320, 240)).unwrap());
    held.extend(decoder.decode(2, &inter_frame(320, 240)).unwrap());
    assert_eq!(orders(&held), vec![Some(0), Some(1), Some(2)]);
    let first_context = decoder.backend.display.next_object;

    let frames = decoder.decode(3, &key_frame(640, 480)).unwrap();
    assert!(frames.is_empty());
    assert!(decoder.negotiation_possible());
    assert_eq!(decoder.coded_resolution(), Some(Resolution { width: 640, height: 480 }));
    assert_eq!(decoder.num_resources_left(), Some(NUM_SURFACES - 1));
    // The free surfaces of the first sequence are gone with its pool, and its context
    // is.
    assert_eq!(decoder.backend.display.destroyed_contexts, vec![first_context]);
    assert_eq!(decoder.backend.display.destroyed.len(), NUM_SURFACES - 3);

    let frames = decoder.decode(4, &inter_frame(640, 480)).unwrap();
    assert_eq!(timestamps(&frames), vec![3, 4]);
    assert_eq!(orders(&frames), vec![Some(3), Some(4)]);
    for frame in &frames {
        assert_eq!(frame.display_resolution(), Resolution { width: 640, height: 480 });
    }
    let prepared = &decoder.backend.display.prepared;
    assert_eq!(prepared[3].coded_resolution, Resolution { width: 640, height: 480 });
    assert_eq!(prepared[3].last_ref, prepared[2].surface);

    // The frames of the first sequence do not give their surfaces to the new pool.
    let left = decoder.num_resources_left();
    let destroyed = decoder.backend.display.destroyed.len();
    for frame in held {
        decoder.release(frame);
    }
    assert_eq!(decoder.num_resources_left(), left);
    // The new key frame has taken the place of every reference, so nothing but the
    // handles referred to these frames.
    assert_eq!(decoder.backend.display.destroyed.len(), destroyed + 3);
}

#[test]
fn a_key_frame_of_the_same_resolution_starts_no_sequence() {
    let mut decoder = decoder(BlockingMode::Blocking);
    decoder.decode(0, &key_frame(320, 240)).unwrap();
    decoder.decode(1, &inter_frame(320, 240)).unwrap();
    let frames = decoder.decode(2, &key_frame(320, 240)).unwrap();
    assert_eq!(orders(&frames), vec![Some(2)]);
    assert!(!decoder.negotiation_possible());
    assert_eq!(decoder.backend.display.created.len(), NUM_SURFACES);
}

#[test]
fn admission_control() {
    let mut decoder = decoder(BlockingMode::NonBlocking);
    let mut held = vec![];
    held.extend(decoder.decode(0, &key_frame(320, 240)).unwrap());
    assert_eq!(decoder.num_resources_left(), Some(NUM_SURFACES - 1));
    // The key frame is submitted with a wait, the frames after it are not.
    held.extend(decoder.decode(1, &inter_frame(320, 240)).unwrap());
    assert_eq!(orders(&held), vec![Some(0)]);
    assert_eq!(decoder.backend.display.syncs.len(), 1);
    for timestamp in 2..NUM_SURFACES as u64 - 1 {
        let frames = decoder.decode(timestamp, &inter_frame(320, 240)).unwrap();
        assert!(frames.is_empty(), "the hardware has not completed a frame");
    }
    assert_eq!(decoder.num_resources_left(), Some(1));
    assert_eq!(decoder.backend.display.syncs.len(), 1);

    // The frame that takes the last surface makes the decoder wait for the frame at the
    // front of the queue.
    let front = decoder.backend.display.prepared[1].surface;
    let frames = decoder.decode(6, &inter_frame(320, 240)).unwrap();
    assert_eq!(decoder.num_resources_left(), Some(0));
    assert_eq!(decoder.backend.display.syncs, vec![decoder.backend.display.prepared[0].surface, front]);
    assert_eq!(orders(&frames), vec![Some(1)]);
    held.extend(frames);

    // No surface is free: the input is refused, and nothing has changed.
    let parsed = decoder.parser.parsed;
    let submitted = decoder.backend.display.prepared.len();
    match decoder.decode(7, &inter_frame(320, 240)) {
        Err(DecodeError::CheckEvents) => {}
        other => panic!("expected CheckEvents, got {:?}", other.map(|f| f.len())),
    }
    assert_eq!(decoder.parser.parsed, parsed);
    assert_eq!(decoder.backend.display.prepared.len(), submitted);
    assert_eq!(decoder.num_resources_left(), Some(0));

    // The second frame is referred to by its handle only, so giving it back frees its
    // surface, and the same input is taken. The first frame is still a reference.
    let mut delivered = orders(&held);
    decoder.release(held.remove(0));
    assert_eq!(decoder.num_resources_left(), Some(0));
    decoder.release(held.remove(0));
    assert_eq!(decoder.num_resources_left(), Some(1));
    for frame in decoder.decode(7, &inter_frame(320, 240)).unwrap() {
        delivered.push(frame.display_order());
        held.push(frame);
    }
    for frame in decoder.flush().unwrap() {
        delivered.push(frame.display_order());
        held.push(frame);
    }
    assert_eq!(delivered, (0..8u64).map(Some).collect::<Vec<_>>());
    assert_eq!(timestamps(&held), (2..8u64).collect::<Vec<_>>());
    // The surface of the second frame was used again.
    let prepared = &decoder.backend.display.prepared;
    assert_eq!(prepared[7].surface, prepared[1].surface);
}

#[test]
fn invalid_copy_buffer_flag() {
    let mut decoder = decoder(BlockingMode::Blocking);
    decoder.decode(0, &key_frame(320, 240)).unwrap();
    let frames = decoder.decode(1, &inter_frame(320, 240)).unwrap();
    assert_eq!(frames.len(), 2);
    let before = (
        decoder.last_picture.as_ref().map(|h| h.inner),
        decoder.golden_ref_picture.as_ref().map(|h| h.inner),
        decoder.alt_ref_picture.as_ref().map(|h| h.inner),
    );
    let submitted = decoder.backend.display.prepared.len();
    let left = decoder.num_resources_left();

    let bad = frame(SHOW | REFRESH_LAST, 320, 240, 0, 3);
    match decoder.decode(2, &bad) {
        Err(DecodeError::DecoderError(cause)) => assert_eq!(cause, "invalid copy buffer flag"),
        other => panic!("expected a decoder error, got {:?}", other.map(|f| f.len())),
    }
    let after = (
        decoder.last_picture.as_ref().map(|h| h.inner),
        decoder.golden_ref_picture.as_ref().map(|h| h.inner),
        decoder.alt_ref_picture.as_ref().map(|h| h.inner),
    );
    assert_eq!(before, after);
    assert_eq!(decoder.backend.display.prepared.len(), submitted);
    assert_eq!(decoder.num_resources_left(), left);

    let bad = frame(SHOW | REFRESH_LAST, 320, 240, 3, 0);
    assert!(matches!(decoder.decode(2, &bad), Err(DecodeError::DecoderError(_))));

    // A flag that is not looked at is not held against the frame.
    let ignored = frame(SHOW | REFRESH_GOLDEN | REFRESH_ALT, 320, 240, 3, 3);
    assert_eq!(orders(&decoder.decode(2, &ignored).unwrap()), vec![Some(2)]);
    let key = frame(KEY | SHOW, 320, 240, 3, 3);
    assert_eq!(orders(&decoder.decode(3, &key).unwrap()), vec![Some(3)]);
}

#[test]
fn a_frame_that_cannot_be_parsed_changes_nothing() {
    let mut decoder = decoder(BlockingMode::Blocking);
    decoder.decode(0, &key_frame(320, 240)).unwrap();
    match decoder.decode(1, &[1, 2, 3]) {
        Err(DecodeError::DecoderError(cause)) => assert_eq!(cause, "a frame of 3 bytes"),
        other => panic!("expected a decoder error, got {:?}", other.map(|f| f.len())),
    }
    assert!(decoder.negotiation_possible());
    assert_eq!(decoder.parser.parsed, 1);
    let frames = decoder.decode(1, &inter_frame(320, 240)).unwrap();
    assert_eq!(orders(&frames), vec![Some(0), Some(1)]);
}

#[test]
fn references_follow_the_header() {
    let mut decoder = decoder(BlockingMode::Blocking);
    decoder.decode(0, &key_frame(320, 240)).unwrap();
    // Golden only.
    decoder.decode(1, &frame(SHOW | REFRESH_GOLDEN, 320, 240, 0, 0)).unwrap();
    let key = decoder.backend.display.prepared[0].surface;
    let golden = decoder.backend.display.prepared[1].surface;
    // Last only.
    decoder.decode(2, &frame(SHOW | REFRESH_LAST, 320, 240, 0, 0)).unwrap();
    let last = decoder.backend.display.prepared[2].surface;
    {
        let seen = &decoder.backend.display.prepared[2];
        assert_eq!((seen.last_ref, seen.golden_ref, seen.alt_ref), (key, golden, key));
    }
    // The alternate reference takes the golden one, and the golden one then takes the
    // alternate one as it is after that: both are the golden one of before.
    decoder.decode(3, &frame(SHOW, 320, 240, 2, 2)).unwrap();
    decoder.decode(4, &frame(SHOW, 320, 240, 0, 0)).unwrap();
    {
        let seen = &decoder.backend.display.prepared[4];
        assert_eq!((seen.last_ref, seen.golden_ref, seen.alt_ref), (last, golden, golden));
    }
    // Both take the last one.
    decoder.decode(5, &frame(SHOW, 320, 240, 1, 1)).unwrap();
    decoder.decode(6, &frame(SHOW, 320, 240, 0, 0)).unwrap();
    {
        let seen = &decoder.backend.display.prepared[6];
        assert_eq!((seen.last_ref, seen.golden_ref, seen.alt_ref), (last, last, last));
    }
}

#[test]
fn a_frame_that_is_not_shown_gets_no_display_order() {
    let mut decoder = decoder(BlockingMode::Blocking);
    decoder.decode(0, &key_frame(320, 240)).unwrap();
    decoder.accept_format();
    let hidden = frame(KEY | REFRESH_LAST, 320, 240, 0, 0);
    assert!(decoder.decode(0, &hidden).unwrap().is_empty());
    assert_eq!(decoder.last_picture.as_ref().unwrap().display_order(), None);
    assert_eq!(decoder.current_display_order, 0);
    let frames = decoder.decode(1, &inter_frame(320, 240)).unwrap();
    assert_eq!(orders(&frames), vec![Some(0)]);
    assert_eq!(timestamps(&frames), vec![1]);
    // The frame that is not shown is kept by the references, and its surface with it.
    assert_eq!(decoder.num_resources_left(), Some(NUM_SURFACES - 2));
}

#[test]
fn flush_decodes_a_single_frame() {
    let mut decoder = decoder(BlockingMode::NonBlocking);
    assert!(decoder.decode(5, &key_frame(320, 240)).unwrap().is_empty());
    let frames = decoder.flush().unwrap();
    assert_eq!(orders(&frames), vec![Some(0)]);
    assert_eq!(timestamps(&frames), vec![5]);
    assert!(decoder.negotiation_possible());
    assert!(decoder.flush().is_ok());
}

#[test]
fn non_blocking_frames_are_handed_out_when_the_hardware_is_done() {
    let mut decoder = decoder(BlockingMode::NonBlocking);
    decoder.decode(0, &key_frame(320, 240)).unwrap();
    let mut held = decoder.decode(1, &inter_frame(320, 240)).unwrap();
    assert_eq!(orders(&held), vec![Some(0)]);
    assert!(decoder.decode(2, &inter_frame(320, 240)).unwrap().is_empty());
    assert!(decoder.next_event().is_none());

    // The later frame is done first: nothing is handed out before the earlier one.
    let second = decoder.backend.display.prepared[1].surface;
    let third = decoder.backend.display.prepared[2].surface;
    decoder.backend.display.complete(third);
    let polled = decoder.poll(BlockingMode::NonBlocking).unwrap();
    assert_eq!(timestamps(&polled), vec![2]);
    for handle in polled {
        assert!(decoder.handle_is_ready(&handle));
        decoder.release(handle);
    }
    assert!(decoder.next_event().is_none());

    decoder.backend.display.complete(second);
    match decoder.next_event() {
        Some(DecoderEvent::FrameReady(handle)) => held.push(handle),
        _ => panic!("the frame at the front of the queue is ready"),
    }
    held.extend(decoder.decode(3, &inter_frame(320, 240)).unwrap());
    assert_eq!(orders(&held), vec![Some(0), Some(1), Some(2)]);
    held.extend(decoder.flush().unwrap());
    assert_eq!(orders(&held), vec![Some(0), Some(1), Some(2), Some(3)]);
}

#[test]
fn sync_twice_is_sync_once() {
    let mut decoder = decoder(BlockingMode::NonBlocking);
    decoder.decode(0, &key_frame(320, 240)).unwrap();
    decoder.accept_format();
    assert!(decoder.decode(0, &key_frame(320, 240)).unwrap().is_empty());
    let handle = DecodedHandle::new(
        decoder.last_picture.as_ref().unwrap().inner,
        0,
        Resolution { width: 320, height: 240 },
    );
    assert!(!decoder.handle_is_ready(&handle));
    decoder.sync(&handle).unwrap();
    assert_eq!(decoder.backend.display.syncs.len(), 1);
    assert!(decoder.handle_is_ready(&handle));
    let queries = decoder.backend.display.queries;
    decoder.sync(&handle).unwrap();
    assert!(decoder.handle_is_ready(&handle));
    // The driver is not asked about a frame that is ready.
    assert_eq!(decoder.backend.display.syncs.len(), 1);
    assert_eq!(decoder.backend.display.queries, queries);
}

#[test]
fn a_frame_is_ready_if_the_driver_cannot_tell() {
    let mut decoder = decoder(BlockingMode::NonBlocking);
    decoder.decode(0, &key_frame(320, 240)).unwrap();
    decoder.accept_format();
    assert!(decoder.decode(0, &key_frame(320, 240)).unwrap().is_empty());
    decoder.backend.display.fail_query = true;
    match decoder.next_event() {
        Some(DecoderEvent::FrameReady(handle)) => assert_eq!(handle.display_order(), Some(0)),
        _ => panic!("the frame counts as ready"),
    }
}

#[test]
fn try_format_changes_the_format_until_the_next_sequence() {
    let mut decoder = decoder(BlockingMode::Blocking);
    assert!(matches!(
        decoder.try_format(DecodedFormat::I420),
        Err(StatelessBackendError::NegotiationFailed(_))
    ));
    decoder.decode(0, &key_frame(320, 240)).unwrap();
    let header = match decoder.next_event() {
        Some(DecoderEvent::FormatChanged(header)) => header,
        _ => panic!("the start of the sequence was not reported"),
    };
    {
        let mut negotiator = StatelessDecoderFormatNegotiator::new(
            &mut decoder,
            header,
            |decoder: &mut TestDecoder, hint: &Header| decoder.apply_format(hint),
        );
        assert_eq!(negotiator.num_resources_total(), NUM_SURFACES);
        assert_eq!(negotiator.coded_resolution(), Resolution { width: 320, height: 240 });
        assert_eq!(negotiator.format(), Some(DecodedFormat::NV12));
        negotiator.try_format(DecodedFormat::I420).unwrap();
        assert_eq!(negotiator.format(), Some(DecodedFormat::I420));
        negotiator.finish();
    }
    assert!(!decoder.negotiation_possible());
    assert_eq!(StatelessVideoDecoder::format(&decoder), Some(DecodedFormat::I420));
    assert_eq!(StatelessVideoDecoder::num_resources_left(&decoder), NUM_SURFACES);
    // The surfaces were allocated anew for the format.
    assert_eq!(decoder.backend.display.created.len(), 2 * NUM_SURFACES);
    assert_eq!(decoder.backend.display.created[NUM_SURFACES].2, VA_FOURCC_I420);
    assert_eq!(decoder.backend.display.destroyed.len(), NUM_SURFACES);

    let mut frames = decoder.decode(0, &key_frame(320, 240)).unwrap();
    frames.extend(decoder.decode(1, &inter_frame(320, 240)).unwrap());
    assert_eq!(orders(&frames), vec![Some(0), Some(1)]);
    assert_eq!(decoder.format(), Some(DecodedFormat::I420));
    let image = decoder.map(&frames[1]).unwrap();
    assert_eq!(image.format.fourcc, VA_FOURCC_I420);
    let mut pixels = vec![0u8; 320 * 240 * 3 / 2];
    image.read(&mut pixels).unwrap();
    assert_eq!(pixels[0], 1);
    assert_eq!(pixels[320 * 239 + 319], (1 + 239 + 319) as u8);
    assert_eq!(pixels[320 * 240 + 161], (200 + 1 + 1) as u8);
    assert_eq!(pixels[320 * 240 + 160 * 120 + 161], (100 + 1 + 1) as u8);

    // The format cannot be changed while the stream is decoded.
    assert!(matches!(
        decoder.try_format(DecodedFormat::NV12),
        Err(StatelessBackendError::NegotiationFailed(_))
    ));
    assert_eq!(decoder.format(), Some(DecodedFormat::I420));

    // The next sequence starts with the default format.
    decoder.decode(2, &key_frame(640, 480)).unwrap();
    assert_eq!(decoder.format(), Some(DecodedFormat::NV12));
}

#[test]
fn try_format_refuses_a_format_that_the_driver_cannot_map() {
    let mut display = TestDisplay::new();
    display.image_formats = vec![image_format(VA_FOURCC_NV12)];
    let mut decoder =
        Decoder::new(VaapiBackend::new(display), BlockingMode::Blocking, TestParser::default())
            .unwrap();
    decoder.decode(0, &key_frame(320, 240)).unwrap();
    match decoder.try_format(DecodedFormat::I420) {
        Err(StatelessBackendError::NegotiationFailed(cause)) => {
            assert_eq!(cause, "The requested format is unsupported.")
        }
        other => panic!("expected a failed negotiation, got {:?}", other),
    }
    assert!(decoder.negotiation_possible());
    assert_eq!(decoder.format(), Some(DecodedFormat::NV12));
    assert_eq!(decoder.backend.display.created.len(), NUM_SURFACES);
    decoder.try_format(DecodedFormat::NV12).unwrap();
    assert_eq!(decoder.format(), Some(DecodedFormat::NV12));
}

#[test]
fn a_sequence_fails_to_start_if_the_driver_lacks_the_format() {
    let mut display = TestDisplay::new();
    display.image_formats = vec![image_format(VA_FOURCC_I420)];
    let mut decoder =
        Decoder::new(VaapiBackend::new(display), BlockingMode::Blocking, TestParser::default())
            .unwrap();
    match decoder.decode(0, &key_frame(320, 240)) {
        Err(DecodeError::BackendError(StatelessBackendError::UnsupportedFormat)) => {}
        other => panic!("expected an unsupported format, got {:?}", other.map(|f| f.len())),
    }
    assert!(!decoder.negotiation_possible());
    assert_eq!(decoder.coded_resolution(), None);
    assert_eq!(decoder.parser.parsed, 0);

    decoder.backend.display.image_formats = vec![image_format(VA_FOURCC_NV12)];
    decoder.backend.display.rt_attribute = 2;
    assert!(matches!(
        decoder.decode(0, &key_frame(320, 240)),
        Err(DecodeError::BackendError(StatelessBackendError::UnsupportedFormat))
    ));
    decoder.backend.display.rt_attribute = 0x8000_0000;
    assert!(matches!(
        decoder.decode(0, &key_frame(320, 240)),
        Err(DecodeError::BackendError(StatelessBackendError::UnsupportedFormat))
    ));

    decoder.backend.display.rt_attribute = 3;
    decoder.backend.display.fail_create_surfaces = true;
    match decoder.decode(0, &key_frame(320, 240)) {
        Err(DecodeError::BackendError(StatelessBackendError::Other(cause))) => {
            assert_eq!(cause, "no memory for surfaces")
        }
        other => panic!("expected the driver's error, got {:?}", other.map(|f| f.len())),
    }
    decoder.backend.display.fail_create_surfaces = false;
    decoder.backend.display.short_surfaces = true;
    match decoder.decode(0, &key_frame(320, 240)) {
        Err(DecodeError::BackendError(StatelessBackendError::Other(cause))) => {
            assert_eq!(cause, "the driver allocated another number of surfaces")
        }
        other => panic!("expected an error, got {:?}", other.map(|f| f.len())),
    }
    assert_eq!(decoder.backend.display.destroyed.len(), NUM_SURFACES - 1);
    decoder.backend.display.short_surfaces = false;
    assert!(decoder.decode(0, &key_frame(320, 240)).unwrap().is_empty());
    assert!(decoder.negotiation_possible());
}

#[test]
fn resources_are_accounted_for() {
    let mut decoder = decoder(BlockingMode::Blocking);
    decoder.decode(0, &key_frame(320, 240)).unwrap();
    let mut held = vec![];
    for timestamp in 1..5 {
        held.extend(decoder.decode(timestamp, &inter_frame(320, 240)).unwrap());
        let left = decoder.backend.num_resources_left();
        let total = decoder.backend.num_resources_total();
        assert!(left <= total);
        // Each frame is held by its handle; the last one by the references too.
        assert_eq!(left + held.len(), total);
    }
    // The key frame is still a reference, and keeps its surface without its handle.
    decoder.release(held.remove(0));
    assert_eq!(decoder.backend.num_resources_left() + held.len() + 1, NUM_SURFACES);
    // A frame that only its handle held gives its surface back at once.
    decoder.release(held.remove(0));
    assert_eq!(decoder.backend.num_resources_left() + held.len() + 1, NUM_SURFACES);
    // The frame that the references hold keeps its surface when its handle is given back.
    let last = held.pop().unwrap();
    decoder.release(last);
    assert_eq!(decoder.backend.num_resources_left() + held.len() + 2, NUM_SURFACES);
    assert!(decoder.backend.display.destroyed.is_empty());
}

#[test]
fn a_surface_is_lost_if_the_driver_fails_on_it() {
    let mut decoder = decoder(BlockingMode::Blocking);
    decoder.decode(0, &key_frame(320, 240)).unwrap();
    decoder.accept_format();
    decoder.backend.display.fail_render = true;
    match decoder.decode(0, &key_frame(320, 240)) {
        Err(DecodeError::BackendError(StatelessBackendError::Other(cause))) => {
            assert_eq!(cause, "render failed")
        }
        other => panic!("expected the driver's error, got {:?}", other.map(|f| f.len())),
    }
    assert_eq!(decoder.backend.display.destroyed.len(), 1);
    assert_eq!(decoder.num_resources_left(), Some(NUM_SURFACES - 1));
    assert_eq!(decoder.parser.parsed, 1);

    // A surface that no picture was submitted for goes back to the pool.
    decoder.backend.display.fail_render = false;
    decoder.backend.display.fail_prepare = true;
    assert!(matches!(
        decoder.decode(0, &key_frame(320, 240)),
        Err(DecodeError::BackendError(StatelessBackendError::Other(_)))
    ));
    assert_eq!(decoder.num_resources_left(), Some(NUM_SURFACES - 1));
    assert_eq!(decoder.backend.display.destroyed.len(), 1);

    // A frame that cannot be waited for is given up, and its surface with it.
    decoder.backend.display.fail_prepare = false;
    decoder.backend.display.fail_sync = true;
    match decoder.decode(0, &key_frame(320, 240)) {
        Err(DecodeError::BackendError(StatelessBackendError::Other(cause))) => {
            assert_eq!(cause, "sync failed")
        }
        other => panic!("expected the driver's error, got {:?}", other.map(|f| f.len())),
    }
    assert_eq!(decoder.backend.display.destroyed.len(), 2);
    assert_eq!(decoder.num_resources_left(), Some(NUM_SURFACES - 2));
    assert!(decoder.last_picture.is_none());

    decoder.backend.display.fail_sync = false;
    let frames = decoder.decode(0, &key_frame(320, 240)).unwrap();
    assert_eq!(orders(&frames), vec![Some(0)]);
}

#[test]
fn the_trait_hands_out_the_same_frames() {
    fn run<V: StatelessVideoDecoder<Handle = DecodedHandle>>(decoder: &mut V) -> Vec<Option<u64>> {
        let mut delivered = vec![];
        assert_eq!(decoder.num_resources_left(), 0);
        delivered.extend(decoder.decode(0, &key_frame(320, 240)).unwrap());
        assert_eq!(decoder.num_resources_left(), NUM_SURFACES - 1);
        assert_eq!(decoder.num_resources_total(), NUM_SURFACES);
        assert_eq!(decoder.coded_resolution(), Some(Resolution { width: 320, height: 240 }));
        assert_eq!(decoder.format(), Some(DecodedFormat::NV12));
        assert!(matches!(decoder.next_event(), Some(DecoderEvent::FormatChanged(_))));
        delivered.extend(decoder.decode(1, &inter_frame(320, 240)).unwrap());
        delivered.extend(decoder.flush().unwrap());
        assert!(decoder.next_event().is_none());
        delivered.iter().map(|frame| frame.display_order()).collect()
    }
    let mut decoder = decoder(BlockingMode::Blocking);
    assert_eq!(run(&mut decoder), vec![Some(0), Some(1)]);
}

/// A stream that takes four surfaces.
#[derive(Clone, Copy)]
struct SmallStream;

impl StreamInfo for SmallStream {
    fn spec_va_profile(&self) -> Option<i32> {
        Some(14)
    }

    fn spec_rt_format(&self) -> Option<u32> {
        Some(VA_RT_FORMAT_YUV420)
    }

    fn spec_min_num_surfaces(&self) -> usize {
        4
    }

    fn spec_coded_size(&self) -> (u32, u32) {
        (64, 32)
    }

    fn spec_visible_rect(&self) -> ((u32, u32), (u32, u32)) {
        ((2, 2), (62, 30))
    }

    fn va_profile(&self) -> Result<i32, String> {
        Ok(14)
    }

    fn rt_format(&self) -> Result<u32, String> {
        Ok(VA_RT_FORMAT_YUV420)
    }

    fn min_num_surfaces(&self) -> usize {
        4
    }

    fn coded_size(&self) -> (u32, u32) {
        (64, 32)
    }

    fn visible_rect(&self) -> ((u32, u32), (u32, u32)) {
        ((2, 2), (62, 30))
    }
}

#[test]
fn a_backend_of_four_surfaces_refuses_the_fifth_frame() {
    let mut backend: VaapiBackend<SmallStream, TestDisplay> = VaapiBackend::new(TestDisplay::new());
    assert_eq!(backend.num_resources_total(), 0);
    assert_eq!(backend.num_resources_left(), 0);
    assert_eq!(backend.coded_resolution(), None);
    assert_eq!(backend.display_resolution(), None);
    assert_eq!(backend.format(), None);
    match backend.acquire_surface() {
        Err(StatelessBackendError::Other(cause)) => assert_eq!(cause, "Stream metadata not parsed yet"),
        other => panic!("expected an error, got {:?}", other),
    }

    backend.new_sequence(&SmallStream).unwrap();
    assert_eq!(backend.num_resources_total(), 4);
    assert_eq!(backend.num_resources_left(), 4);
    assert_eq!(backend.coded_resolution(), Some(Resolution { width: 64, height: 32 }));
    assert_eq!(backend.display_resolution(), Some(Resolution { width: 60, height: 28 }));
    assert_eq!(backend.format(), Some(DecodedFormat::NV12));
    assert_eq!(backend.display.created.len(), 4);
    assert_eq!(backend.display.created[0], (100, VA_RT_FORMAT_YUV420, VA_FOURCC_NV12, 64 * 0x1_0000 + 32));

    let mut frames = vec![];
    for timestamp in 0..4u64 {
        let surface = backend.acquire_surface().unwrap();
        assert_eq!(surface.id(), 100 + timestamp as u32);
        let handle = backend.process_picture(Picture::new(timestamp, surface)).unwrap();
        assert_eq!(handle.timestamp(), timestamp);
        assert_eq!(handle.display_resolution(), Resolution { width: 60, height: 28 });
        assert_eq!(handle.display_order(), None);
        frames.push(handle);
        assert_eq!(backend.num_resources_left() + frames.len(), 4);
    }
    assert!(matches!(backend.acquire_surface(), Err(StatelessBackendError::OutOfResources)));
    assert_eq!(backend.num_resources_left(), 0);

    // A frame goes when the last handle to it is given back, and not before.
    let copy = backend.clone_handle(&frames[1]);
    assert_eq!(copy.inner, frames[1].inner);
    let first = frames.remove(1);
    assert!(!backend.handle_is_ready(&first));
    backend.release_handle(first);
    assert_eq!(backend.num_resources_left(), 0);
    backend.block_on_handle(&copy).unwrap();
    assert!(backend.handle_is_ready(&copy));
    assert_eq!(backend.surface_id_of(Some(&copy)), 101);
    backend.release_handle(copy);
    assert_eq!(backend.num_resources_left(), 1);
    assert_eq!(backend.acquire_surface().unwrap().id(), 101);
    assert_eq!(backend.surface_id_of(None), VA_INVALID_SURFACE);
    assert_eq!(backend.surface_id_of(Some(&DecodedHandle::new(999, 0, Resolution::default()))), VA_INVALID_SURFACE);
    assert!(backend.block_on_handle(&DecodedHandle::new(999, 0, Resolution::default())).is_err());
    assert!(!backend.handle_is_ready(&DecodedHandle::new(999, 0, Resolution::default())));
}

#[test]
fn negotiate_format_ends_the_negotiation_whatever_the_answer() {
    // The request is granted.
    let mut granted = decoder(BlockingMode::Blocking);
    granted.decode(0, &key_frame(320, 240)).unwrap();
    assert!(granted.negotiation_possible());
    granted.negotiate_format(DecodedFormat::I420).unwrap();
    assert!(!granted.negotiation_possible());
    assert_eq!(granted.format(), Some(DecodedFormat::I420));
    let frames = granted.decode(0, &key_frame(320, 240)).unwrap();
    assert_eq!(timestamps(&frames), vec![0]);
    assert_eq!(orders(&frames), vec![Some(0)]);

    // The request is refused, and the negotiation ends all the same.
    let mut display = TestDisplay::new();
    display.image_formats = vec![image_format(VA_FOURCC_NV12)];
    let mut refused =
        Decoder::new(VaapiBackend::new(display), BlockingMode::Blocking, TestParser::default())
            .unwrap();
    refused.decode(0, &key_frame(320, 240)).unwrap();
    match refused.negotiate_format(DecodedFormat::I420) {
        Err(StatelessBackendError::NegotiationFailed(cause)) => {
            assert_eq!(cause, "The requested format is unsupported.")
        }
        other => panic!("expected a failed negotiation, got {:?}", other),
    }
    assert!(!refused.negotiation_possible());
    assert_eq!(refused.format(), Some(DecodedFormat::NV12));
    let frames = refused.decode(0, &key_frame(320, 240)).unwrap();
    assert_eq!(timestamps(&frames), vec![0]);

    // No negotiation is under way.
    match refused.negotiate_format(DecodedFormat::NV12) {
        Err(StatelessBackendError::NegotiationFailed(cause)) => {
            assert_eq!(cause, "Negotiation is not possible at this stage")
        }
        other => panic!("expected a failed negotiation, got {:?}", other),
    }
    assert_eq!(refused.format(), Some(DecodedFormat::NV12));
}

#[test]
fn a_refusal_leaves_the_negotiation_as_it_is() {
    let mut decoder = decoder(BlockingMode::Blocking);
    assert!(decoder.decode(0, &key_frame(320, 240)).unwrap().is_empty());
    // Each flush decodes the key frame that is kept, and takes a surface for it.
    let mut held = vec![];
    for order in 0..(NUM_SURFACES as u64 - 1) {
        let mut frames = decoder.flush().unwrap();
        assert_eq!(orders(&frames), vec![Some(order)]);
        held.push(frames.remove(0));
    }
    // One surface is free, and it is kept for the key frame.
    assert_eq!(decoder.backend.num_resources_left(), 1);
    assert_eq!(decoder.num_resources_left(), Some(0));
    assert!(decoder.negotiation_possible());

    // The key frame and the next frame take a surface each.
    let submitted = decoder.backend.display.prepared.len();
    assert!(matches!(decoder.decode(1, &inter_frame(320, 240)), Err(DecodeError::CheckEvents)));
    assert!(decoder.negotiation_possible());
    assert_eq!(decoder.backend.num_resources_left(), 1);
    assert_eq!(decoder.backend.display.prepared.len(), submitted);
    assert_eq!(decoder.parser.parsed, 1);

    // With a frame given back the same input is taken.
    decoder.release(held.remove(0));
    assert_eq!(decoder.backend.num_resources_left(), 2);
    assert_eq!(decoder.num_resources_left(), Some(1));
    let frames = decoder.decode(1, &inter_frame(320, 240)).unwrap();
    assert_eq!(timestamps(&frames), vec![0, 1]);
    assert_eq!(orders(&frames), vec![Some(6), Some(7)]);
    assert!(!decoder.negotiation_possible());
    assert_eq!(decoder.num_resources_left(), Some(0));
    for frame in held {
        decoder.release(frame);
    }
}

#[test]
fn a_blocking_decoder_hands_out_each_frame_in_its_call() {
    let mut decoder = decoder(BlockingMode::Blocking);
    assert!(decoder.decode(3, &key_frame(320, 240)).unwrap().is_empty());
    decoder.accept_format();
    // The negotiation has ended, and the client submits the key frame again.
    for (timestamp, input) in [(3, key_frame(320, 240)), (4, inter_frame(320, 240))] {
        let frames = decoder.decode(timestamp, &input).unwrap();
        assert_eq!(timestamps(&frames), vec![timestamp]);
        assert_eq!(orders(&frames), vec![Some(timestamp - 3)]);
        assert!(decoder.handle_is_ready(&frames[0]));
        assert!(decoder.ready_queue.is_empty());
    }

    // Without a negotiation the key frame that was kept comes out before the frame of
    // the call.
    let mut replayed = self::decoder(BlockingMode::Blocking);
    assert!(replayed.decode(3, &key_frame(320, 240)).unwrap().is_empty());
    let frames = replayed.decode(4, &inter_frame(320, 240)).unwrap();
    assert_eq!(timestamps(&frames), vec![3, 4]);
    assert_eq!(orders(&frames), vec![Some(0), Some(1)]);
    assert!(replayed.handle_is_ready(&frames[0]));
    assert!(replayed.handle_is_ready(&frames[1]));
    assert!(replayed.ready_queue.is_empty());
}

#[test]
fn map_refuses_a_layout_that_it_does_not_know() {
    let mut decoder = decoder(BlockingMode::Blocking);
    let unknown = DecodedHandle::new(40, 0, Resolution { width: 4, height: 4 });
    assert!(matches!(decoder.map(&unknown), Err(StatelessBackendError::Other(_))));

    decoder.backend.handles.insert(
        40,
        GenericBackendHandle {
            state: PictureState::Ready(Picture::new(0, Surface::new(3))),
            coded_resolution: Resolution { width: 4, height: 4 },
            display_resolution: Resolution { width: 4, height: 4 },
            map_format: image_format(0x3231_5659),
            surface_pool: 0,
            holders: 1,
        },
    );
    assert!(matches!(decoder.map(&unknown), Err(StatelessBackendError::UnsupportedFormat)));
    assert!(matches!(
        decoder.backend.image(&unknown),
        Err(StatelessBackendError::UnsupportedFormat)
    ));
    assert!(decoder.handle_is_ready(&unknown));
}

#[test]
fn flush_empties_the_queue() {
    let mut decoder = decoder(BlockingMode::NonBlocking);
    assert!(decoder.decode(0, &key_frame(320, 240)).unwrap().is_empty());
    decoder.accept_format();
    // The hardware completes nothing by itself, so the frames stay in the queue.
    assert!(decoder.decode(0, &key_frame(320, 240)).unwrap().is_empty());
    for timestamp in 1..4 {
        assert!(decoder.decode(timestamp, &inter_frame(320, 240)).unwrap().is_empty());
    }
    assert_eq!(decoder.ready_queue.len(), 4);
    assert_eq!(decoder.backend.pending_jobs.len(), 4);

    let frames = decoder.flush().unwrap();
    assert_eq!(timestamps(&frames), vec![0, 1, 2, 3]);
    assert_eq!(orders(&frames), vec![Some(0), Some(1), Some(2), Some(3)]);
    assert!(decoder.ready_queue.is_empty());
    assert!(decoder.backend.pending_jobs.is_empty());
    for frame in &frames {
        assert!(decoder.handle_is_ready(frame));
    }
    assert!(decoder.flush().unwrap().is_empty());
}

#[test]
fn the_handles_to_a_frame_are_counted() {
    let mut decoder = decoder(BlockingMode::NonBlocking);
    assert!(decoder.decode(0, &key_frame(320, 240)).unwrap().is_empty());
    // The key frame is waited for: the queue and the three references refer to it.
    let mut frames = decoder.decode(1, &inter_frame(320, 240)).unwrap();
    assert_eq!(timestamps(&frames), vec![0]);
    let key = frames.remove(0);
    // The frame after it replaced the last reference.
    assert_eq!(decoder.backend.handles[&key.inner].holders, 3);
    // It is in the queue, it is waited for, and it is the last reference.
    let next = decoder.ready_queue[0].inner;
    assert_eq!(decoder.backend.handles[&next].holders, 3);
    assert_eq!(decoder.backend.pending_jobs.len(), 1);
    assert_eq!(decoder.backend.pending_jobs[0].inner, next);

    let polled = decoder.poll(BlockingMode::Blocking).unwrap();
    assert_eq!(timestamps(&polled), vec![1]);
    assert_eq!(decoder.backend.handles[&next].holders, 3);
    for handle in polled {
        decoder.release(handle);
    }
    assert_eq!(decoder.backend.handles[&next].holders, 2);
    decoder.release(key);
    assert_eq!(decoder.backend.handles[&decoder.ready_queue[0].inner].holders, 2);
    let frames = decoder.flush().unwrap();
    assert_eq!(timestamps(&frames), vec![1]);
}

#[test]
fn a_frame_is_submitted_with_the_parser_state_that_was_kept_with_it() {
    assert_eq!(*submission_parser(&Some(3u32), &5u32), 3);
    assert_eq!(*submission_parser(&None, &5u32), 5);

    let mut decoder = decoder(BlockingMode::Blocking);
    assert!(decoder.decode(0, &key_frame(320, 240)).unwrap().is_empty());
    assert_eq!(decoder.parser.parsed, 1);
    let frames = decoder.decode(1, &inter_frame(320, 240)).unwrap();
    assert_eq!(timestamps(&frames), vec![0, 1]);
    // The key frame comes with the state of the parser after the key frame, the frame
    // after it with the state of the decoder's parser.
    let prepared = &decoder.backend.display.prepared;
    assert_eq!((prepared[0].timestamp, prepared[0].parsed), (0, 1));
    assert_eq!((prepared[1].timestamp, prepared[1].parsed), (1, 2));
    assert_eq!(decoder.parser.parsed, 2);

    // So does the key frame that flush decodes.
    let mut flushed = self::decoder(BlockingMode::Blocking);
    assert!(flushed.decode(7, &key_frame(320, 240)).unwrap().is_empty());
    flushed.parser.parsed = 40;
    assert_eq!(timestamps(&flushed.flush().unwrap()), vec![7]);
    assert_eq!(flushed.backend.display.prepared[0].parsed, 1);
    assert_eq!(flushed.parser.parsed, 40);
}

#[test]
fn nothing_is_waited_for_if_the_front_frame_is_ready() {
    let mut decoder = decoder(BlockingMode::NonBlocking);
    assert!(decoder.block_on_one().is_ok());
    assert!(decoder.backend.display.syncs.is_empty());

    decoder.decode(0, &key_frame(320, 240)).unwrap();
    decoder.accept_format();
    assert!(decoder.decode(0, &key_frame(320, 240)).unwrap().is_empty());
    assert_eq!(decoder.ready_queue.len(), 1);
    assert!(decoder.backend.display.syncs.is_empty());
    // The frame is waited for once, and not again when it is ready.
    decoder.block_on_one().unwrap();
    assert_eq!(decoder.backend.display.syncs.len(), 1);
    let front = DecodedHandle::new(decoder.ready_queue[0].inner, 0, Resolution::default());
    assert!(decoder.handle_is_ready(&front));
    decoder.backend.display.fail_sync = true;
    decoder.block_on_one().unwrap();
    assert_eq!(decoder.backend.display.syncs.len(), 1);

    // A frame that is not ready is waited for, and the failure of the driver comes back.
    assert!(decoder.decode(1, &inter_frame(320, 240)).unwrap().len() == 1);
    assert!(decoder.decode(2, &inter_frame(320, 240)).unwrap().is_empty());
    match decoder.block_on_one() {
        Err(DecodeError::BackendError(StatelessBackendError::Other(cause))) => {
            assert_eq!(cause, "sync failed")
        }
        other => panic!("expected the driver's error, got {:?}", other),
    }
}

#[test]
fn the_handle_to_a_frame_that_is_not_shown_is_given_back() {
    let mut decoder = decoder(BlockingMode::Blocking);
    decoder.decode(0, &key_frame(320, 240)).unwrap();
    decoder.accept_format();
    let frames = decoder.decode(0, &key_frame(320, 240)).unwrap();
    let key = frames[0].inner;
    // The queue handed its handle out; the three references hold one each.
    assert_eq!(decoder.backend.handles[&key].holders, 4);
    assert_eq!(decoder.num_resources_left(), Some(NUM_SURFACES - 1));

    // A frame that is not shown and becomes the last reference is kept by that alone.
    let hidden = frame(REFRESH_LAST, 320, 240, 0, 0);
    assert!(decoder.decode(1, &hidden).unwrap().is_empty());
    let kept = decoder.last_picture.as_ref().unwrap().inner;
    assert_eq!(decoder.backend.handles[&kept].holders, 1);
    assert_eq!(decoder.backend.handles[&key].holders, 3);
    assert_eq!(decoder.num_resources_left(), Some(NUM_SURFACES - 2));

    // A frame that is neither shown nor a reference ends at once, and its surface is
    // free again.
    let frames_before = decoder.backend.handles.len();
    let dropped = frame(0, 320, 240, 0, 0);
    assert!(decoder.decode(2, &dropped).unwrap().is_empty());
    assert_eq!(decoder.backend.handles.len(), frames_before);
    assert_eq!(decoder.num_resources_left(), Some(NUM_SURFACES - 2));
    assert_eq!(decoder.backend.display.prepared.len(), 3);
    assert_eq!(decoder.current_display_order, 1);

    // Without a wait the frames that are waited for hold a handle too.
    decoder.blocking_mode = BlockingMode::NonBlocking;
    assert!(decoder.decode(3, &frame(0, 320, 240, 0, 0)).unwrap().is_empty());
    assert_eq!(decoder.backend.handles.len(), frames_before + 1);
    assert_eq!(decoder.backend.pending_jobs.len(), 1);
    let waited_for = decoder.backend.pending_jobs[0].inner;
    assert_eq!(decoder.backend.handles[&waited_for].holders, 1);
}

#[test]
fn no_frame_is_left_of_a_submission_that_failed() {
    let mut decoder = decoder(BlockingMode::Blocking);
    decoder.decode(0, &key_frame(320, 240)).unwrap();
    decoder.accept_format();
    for (prepare, render, sync, lost) in
        [(true, false, false, 0), (false, true, false, 1), (false, false, true, 2)]
    {
        decoder.backend.display.fail_prepare = prepare;
        decoder.backend.display.fail_render = render;
        decoder.backend.display.fail_sync = sync;
        assert!(matches!(
            decoder.decode(0, &key_frame(320, 240)),
            Err(DecodeError::BackendError(StatelessBackendError::Other(_)))
        ));
        assert!(decoder.backend.handles.is_empty());
        assert!(decoder.backend.pending_jobs.is_empty());
        assert!(decoder.ready_queue.is_empty());
        assert_eq!(decoder.backend.num_resources_left(), NUM_SURFACES - lost);
        assert_eq!(decoder.backend.num_resources_total(), NUM_SURFACES);
        assert!(!decoder.negotiation_possible());
    }
}

#[test]
fn a_sequence_starts_once_every_frame_has_been_waited_for() {
    let mut decoder = decoder(BlockingMode::NonBlocking);
    decoder.decode(0, &key_frame(320, 240)).unwrap();
    let mut held = decoder.decode(1, &inter_frame(320, 240)).unwrap();
    assert!(decoder.decode(2, &inter_frame(320, 240)).unwrap().is_empty());
    assert_eq!(decoder.backend.pending_jobs.len(), 2);
    let waited_for: Vec<DecodedHandle> = decoder
        .ready_queue
        .iter()
        .map(|frame| DecodedHandle::new(frame.inner, frame.timestamp(), frame.display_resolution()))
        .collect();

    let first = decoder.backend.next_id;
    assert!(decoder.decode(3, &key_frame(640, 480)).unwrap().is_empty());
    assert!(decoder.negotiation_possible());
    assert!(decoder.backend.pending_jobs.is_empty());
    for frame in &waited_for {
        assert!(decoder.handle_is_ready(frame));
    }
    assert_eq!(decoder.backend.next_id, first + 1);
    assert_eq!(decoder.num_resources_total(), NUM_SURFACES);
    assert_eq!(decoder.backend.num_resources_left(), NUM_SURFACES);
    assert_eq!(decoder.num_resources_left(), Some(NUM_SURFACES - 1));
    assert_eq!(decoder.backend.display_resolution(), Some(Resolution { width: 640, height: 480 }));
    assert_eq!(decoder.coded_resolution(), Some(Resolution { width: 640, height: 480 }));
    // The frames of the sequence before are still in the queue, and come out first.
    held.extend(decoder.decode(4, &inter_frame(640, 480)).unwrap());
    held.extend(decoder.flush().unwrap());
    assert_eq!(timestamps(&held), vec![0, 1, 2, 3, 4]);
    assert_eq!(held[3].display_resolution(), Resolution { width: 640, height: 480 });
    assert_eq!(held[1].display_resolution(), Resolution { width: 320, height: 240 });
}

#[test]
fn flush_refuses_a_key_frame_that_has_no_place_in_the_display_order() {
    let mut decoder = decoder(BlockingMode::Blocking);
    assert!(decoder.decode(0, &key_frame(320, 240)).unwrap().is_empty());
    decoder.current_display_order = u64::MAX;
    match decoder.flush() {
        Err(DecodeError::DecoderError(cause)) => assert_eq!(cause, "display order exhausted"),
        other => panic!("expected a decoder error, got {:?}", other.map(|f| f.len())),
    }
    assert!(decoder.negotiation_possible());
    assert!(decoder.backend.display.prepared.is_empty());
    assert_eq!(decoder.backend.num_resources_left(), NUM_SURFACES);

    // Without a key frame kept no frame is made.
    let mut idle = self::decoder(BlockingMode::Blocking);
    let next = idle.backend.next_id;
    assert!(idle.flush().unwrap().is_empty());
    assert_eq!(idle.backend.next_id, next);
    assert!(idle.backend.handles.is_empty());
}

#[test]
fn the_negotiation_ends_with_the_resolution_of_the_key_frame() {
    let mut accepted = decoder(BlockingMode::Blocking);
    accepted.decode(0, &key_frame(320, 240)).unwrap();
    accepted.decode(1, &inter_frame(320, 240)).unwrap();
    accepted.decode(2, &key_frame(640, 480)).unwrap();
    accepted.accept_format();
    assert_eq!(accepted.coded_resolution(), Some(Resolution { width: 640, height: 480 }));
    assert_eq!(accepted.current_display_order, 2);
    // A key frame of this resolution starts no sequence now.
    assert_eq!(timestamps(&accepted.decode(2, &key_frame(640, 480)).unwrap()), vec![2]);

    let mut negotiated = decoder(BlockingMode::NonBlocking);
    negotiated.decode(0, &key_frame(320, 240)).unwrap();
    negotiated.decode(1, &inter_frame(320, 240)).unwrap();
    negotiated.decode(2, &inter_frame(320, 240)).unwrap();
    negotiated.decode(3, &key_frame(640, 480)).unwrap();
    let queue = orders(&negotiated.ready_queue);
    assert_eq!(queue.len(), 2);
    let last = negotiated.last_picture.as_ref().unwrap().inner;
    negotiated.negotiate_format(DecodedFormat::I420).unwrap();
    assert_eq!(negotiated.coded_resolution(), Some(Resolution { width: 640, height: 480 }));
    assert_eq!(negotiated.format(), Some(DecodedFormat::I420));
    assert_eq!(orders(&negotiated.ready_queue), queue);
    assert_eq!(negotiated.last_picture.as_ref().unwrap().inner, last);
    assert_eq!(negotiated.current_display_order, 3);
    assert_eq!(negotiated.backend.num_resources_left(), NUM_SURFACES);
}
