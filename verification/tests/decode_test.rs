use video_toolbox::{
    decode_callback, CMFormatDescription, CVBuffer, DecodeError, Decoder, DecoderInternal,
    HardwareReport,
};

const ALL_WELL: HardwareReport =
    HardwareReport { session_status: 0, block_buffer_status: 0, sample_buffer_status: 0 };

fn key_frame_stream() -> Vec<u8> {
    vec![
        0x00, 0x00, 0x00, 0x01, 0x40, 0x01, 0x0c, 0x01, // video parameter set
        0x00, 0x00, 0x00, 0x01, 0x42, 0x01, 0x01, 0x60, // sequence parameter set
        0x00, 0x00, 0x00, 0x01, 0x44, 0x01, 0xc1, 0x72, // picture parameter set
        0x00, 0x00, 0x00, 0x01, 0x28, 0x01, 0xaf, 0x1d, 0x80, // IDR slice
    ]
}

#[test]
fn test_decode() {
    let width: u32 = 1280;
    let height: u32 = 720;
    let hevc_bytes = key_frame_stream();

    let mut decoder = Decoder::new(width, height).unwrap();
    let mut dst = vec![0u8; width as usize * height as usize * 4];

    let request = decoder.prepare(&hevc_bytes).unwrap();
    assert_eq!(request.sample, vec![0x00, 0x00, 0x00, 0x05, 0x28, 0x01, 0xaf, 0x1d, 0x80]);

    let decoded_size = decoder.decode_blocking(&hevc_bytes, &ALL_WELL).unwrap();

    let image = CVBuffer::with_plane(5120, 720, vec![0x7fu8; 5120 * 720]).unwrap();
    let written = decode_callback(&image, &mut dst);

    println!("Decoded size: {}", decoded_size);
    assert_eq!(decoded_size, 3_686_400);
    assert_eq!(written, 3_686_400);
    assert!(decoder.has_session());
}

#[test]
fn new_decoder_has_no_session() {
    let decoder = Decoder::new(640, 480).unwrap();
    assert_eq!(decoder.width(), 640);
    assert_eq!(decoder.height(), 480);
    assert!(!decoder.has_session());
    assert!(decoder.session().is_none());
    assert!(!DecoderInternal::new().has_session());
    assert!(DecoderInternal::new().session().is_none());
}

#[test]
fn decoder_session_is_for_bgra_on_hardware() {
    let mut decoder = Decoder::new(16, 16).unwrap();
    assert_eq!(decoder.decode_blocking(&key_frame_stream(), &ALL_WELL), Ok(1024));
    let session = decoder.session().unwrap();
    assert_eq!(session.pixel_format, 0x4247_5241);
    assert!(session.specification.require_hardware_acceleration);
    assert_eq!(session.specification.entry_count, 1);
}

#[test]
fn recreating_the_decoder_needs_a_good_status() {
    let mut state = DecoderInternal::new();
    let format = CMFormatDescription::from_hevc_parameter_sets(&[0x40], &[0x42], &[0x44]);
    assert_eq!(
        state.recreate_decoder(format, -8969),
        Err(DecodeError::InitializationError(-8969))
    );
    assert!(!state.has_session());
    let format = CMFormatDescription::from_hevc_parameter_sets(&[0x40], &[0x42], &[0x44]);
    assert_eq!(state.recreate_decoder(format, 0), Ok(()));
    assert!(state.has_session());
    let p_frame: [u8; 5] = [0x00, 0x00, 0x01, 0x02, 0x01];
    assert_eq!(state.decode(&p_frame, &ALL_WELL), Ok(()));
    assert_eq!(state.decode(&[], &ALL_WELL), Err(DecodeError::MissingPFrame));
}

#[test]
fn first_contact_asks_for_a_session() {
    let decoder = Decoder::new(64, 64).unwrap();
    let request = decoder.prepare(&key_frame_stream()).unwrap();
    let format = request.format_description.unwrap();
    assert_eq!(format.parameter_set_count(), 3);
    assert_eq!(format.parameter_set_at(0), Some(&[0x40u8, 0x01, 0x0c, 0x01][..]));
    assert_eq!(format.parameter_set_at(1), Some(&[0x42u8, 0x01, 0x01, 0x60][..]));
    assert_eq!(format.parameter_set_at(2), Some(&[0x44u8, 0x01, 0xc1, 0x72][..]));
    assert_eq!(request.sample, vec![0x00, 0x00, 0x00, 0x05, 0x28, 0x01, 0xaf, 0x1d, 0x80]);
}

#[test]
fn first_contact_without_pps_fails_and_creates_no_session() {
    let bytes: Vec<u8> = vec![
        0x00, 0x00, 0x01, 0x40, 0x01, 0x0c, // video parameter set
        0x00, 0x00, 0x01, 0x42, 0x01, 0x01, // sequence parameter set
    ];
    let mut decoder = Decoder::new(64, 64).unwrap();
    assert_eq!(decoder.prepare(&bytes).unwrap_err(), DecodeError::MissingPpsNalUnit);
    assert_eq!(decoder.decode_blocking(&bytes, &ALL_WELL), Err(DecodeError::MissingPpsNalUnit));
    assert!(!decoder.has_session());
}

#[test]
fn first_contact_errors() {
    let mut decoder = Decoder::new(64, 64).unwrap();
    assert_eq!(decoder.decode_blocking(&[], &ALL_WELL), Err(DecodeError::MissingVpsNalUnit));
    let no_sps: [u8; 5] = [0x00, 0x00, 0x01, 0x40, 0x01];
    assert_eq!(decoder.decode_blocking(&no_sps, &ALL_WELL), Err(DecodeError::MissingSpsNalUnit));
    let no_idr: [u8; 15] = [
        0x00, 0x00, 0x01, 0x40, 0x01, 0x00, 0x00, 0x01, 0x42, 0x01, 0x00, 0x00, 0x01, 0x44, 0x01,
    ];
    assert_eq!(decoder.decode_blocking(&no_idr, &ALL_WELL), Err(DecodeError::MissingIFrame));
    assert!(!decoder.has_session());
}

#[test]
fn failed_session_creation_leaves_no_session() {
    let mut decoder = Decoder::new(64, 64).unwrap();
    let report =
        HardwareReport { session_status: -12903, block_buffer_status: 0, sample_buffer_status: 0 };
    assert_eq!(
        decoder.decode_blocking(&key_frame_stream(), &report),
        Err(DecodeError::InitializationError(-12903))
    );
    assert!(!decoder.has_session());
    // The next buffer is a first contact again.
    assert_eq!(decoder.decode_blocking(&key_frame_stream(), &ALL_WELL), Ok(64 * 64 * 4));
    assert!(decoder.has_session());
}

#[test]
fn buffer_errors_come_after_the_session() {
    let mut decoder = Decoder::new(64, 64).unwrap();
    let report =
        HardwareReport { session_status: 0, block_buffer_status: -12700, sample_buffer_status: 7 };
    assert_eq!(
        decoder.decode_blocking(&key_frame_stream(), &report),
        Err(DecodeError::BlockBufferCreationError(-12700))
    );
    // The session was created before the block buffer failed.
    assert!(decoder.has_session());
    let report =
        HardwareReport { session_status: 0, block_buffer_status: 0, sample_buffer_status: -12731 };
    assert_eq!(
        decoder.decode_blocking(&key_frame_stream(), &report),
        Err(DecodeError::SampleBufferCreationError(-12731))
    );
}

#[test]
fn steady_state_decodes_reference_slices() {
    let mut decoder = Decoder::new(32, 16).unwrap();
    assert_eq!(decoder.decode_blocking(&key_frame_stream(), &ALL_WELL), Ok(32 * 16 * 4));

    let p_frame: [u8; 7] = [0x00, 0x00, 0x01, 0x02, 0x01, 0xd0, 0x09];
    let request = decoder.prepare(&p_frame).unwrap();
    assert!(request.format_description.is_none());
    assert_eq!(request.sample, vec![0x00, 0x00, 0x00, 0x04, 0x02, 0x01, 0xd0, 0x09]);
    // The session status is not read when no session was asked for.
    let report =
        HardwareReport { session_status: 99, block_buffer_status: 0, sample_buffer_status: 0 };
    assert_eq!(decoder.decode_blocking(&p_frame, &report), Ok(32 * 16 * 4));

    let parameter_sets: [u8; 10] = [0x00, 0x00, 0x01, 0x40, 0x01, 0x00, 0x00, 0x01, 0x42, 0x01];
    assert_eq!(decoder.prepare(&parameter_sets).unwrap_err(), DecodeError::MissingPFrame);
    assert_eq!(
        decoder.decode_blocking(&parameter_sets, &ALL_WELL),
        Err(DecodeError::MissingPFrame)
    );
    assert!(decoder.has_session());
}

#[test]
fn decoded_plane_is_copied_to_the_front() {
    let image = CVBuffer::with_plane(4, 2, vec![1, 2, 3, 4, 5, 6, 7, 8]).unwrap();
    assert_eq!(image.bytes_per_row(), 4);
    assert_eq!(image.height(), 2);
    let mut dst = vec![0xeeu8; 10];
    assert_eq!(decode_callback(&image, &mut dst), 8);
    assert_eq!(dst, vec![1, 2, 3, 4, 5, 6, 7, 8, 0xee, 0xee]);
}

#[test]
fn plane_of_the_wrong_size_is_no_image() {
    assert!(CVBuffer::with_plane(4, 2, vec![0u8; 7]).is_none());
    assert!(CVBuffer::with_plane(usize::MAX, 2, vec![0u8; 2]).is_none());
    assert!(CVBuffer::with_plane(0, 9, vec![]).is_some());
}

#[test]
fn key_frame_behind_short_start_codes_starts_the_decoder() {
    let bytes: [u8; 24] = [
        0x00, 0x00, 0x01, 0x40, 0x01, 0x0c, // type 32
        0x00, 0x00, 0x01, 0x42, 0x01, 0x01, // type 33
        0x00, 0x00, 0x01, 0x44, 0x01, 0xc1, // type 34
        0x00, 0x00, 0x01, 0x28, 0x01, 0xaf, // type 20
    ];
    let mut decoder = Decoder::new(8, 8).unwrap();
    assert_eq!(decoder.decode_blocking(&bytes, &ALL_WELL), Ok(256));
    assert!(decoder.has_session());
}
