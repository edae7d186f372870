use video_toolbox::media::write_to_buffer;
use video_toolbox::{
    encode_callback, fourcc, get_hevc_param, CMFormatDescription, CMTime, EncodeError, Encoder,
    HevcError, HevcParam, OpaqueCMBlockBuffer, OpaqueCMSampleBuffer, OpaqueVTCompressionSession,
    SessionSpecification,
};

fn make_image_frame(width: usize, height: usize) -> Vec<u8> {
    let mut frame = vec![0u8; width * height * 4];

    for y in 0..height {
        for x in 0..width {
            let pixel_offset = (y * width * 4) + (x * 4);

            let width_factor = x as f32 / width as f32;
            let height_factor = y as f32 / height as f32;

            frame[pixel_offset] = 255; // Alpha
            frame[pixel_offset + 1] = (width_factor * 255.0) as u8; // Red
            frame[pixel_offset + 2] = 255; // Green
            frame[pixel_offset + 3] = (height_factor * 255.0) as u8; // Blue
        }
    }

    frame
}

fn sample(data: Vec<u8>, not_sync: Vec<Option<bool>>) -> OpaqueCMSampleBuffer {
    let format = CMFormatDescription::from_hevc_parameter_sets(
        &[0x40, 0x01, 0x0c],
        &[0x42, 0x01, 0x01],
        &[0x44, 0x01, 0xc1],
    );
    OpaqueCMSampleBuffer::create(OpaqueCMBlockBuffer::with_memory_block(data), format, not_sync)
}

#[test]
fn test_encode() {
    let width: u32 = 1280;
    let height: u32 = 720;

    let mut encoder = Encoder::new(width, height, 0).unwrap();

    let src_frame = make_image_frame(width as usize, height as usize);
    let mut dst = vec![0u8; width as usize * height as usize * 4];
    assert_eq!(src_frame.len(), dst.len());

    let hardware_sample =
        sample(vec![0x00, 0x00, 0x00, 0x05, 0x28, 0x01, 0xaf, 0x1d, 0x80], vec![None]);
    let frame = encode_callback(&hardware_sample).unwrap();
    let written = write_to_buffer(&mut dst, &frame);
    let encoded_size = encoder.encode_blocking(0, written).unwrap();

    println!("Encoded size: {}", encoded_size);
    assert_eq!(encoded_size, 30);
    assert_eq!(
        &dst[..30],
        &[
            0x00u8, 0x00, 0x00, 0x01, 0x40, 0x01, 0x0c, 0x00, 0x00, 0x00, 0x01, 0x42, 0x01, 0x01,
            0x00, 0x00, 0x00, 0x01, 0x44, 0x01, 0xc1, 0x00, 0x00, 0x00, 0x01, 0x28, 0x01, 0xaf,
            0x1d, 0x80
        ][..]
    );
    assert_eq!(dst[30], 0);
}

#[test]
fn encoder_keeps_its_size() {
    let encoder = Encoder::new(1920, 1080, 0).unwrap();
    assert_eq!(encoder.width(), 1920);
    assert_eq!(encoder.height(), 1080);
}

#[test]
fn encoder_session_is_for_hevc_on_hardware() {
    let session = Encoder::new(1920, 1080, 0).unwrap().session();
    assert_eq!(session, OpaqueVTCompressionSession::create(1920, 1080));
    assert_eq!(session.width, 1920);
    assert_eq!(session.height, 1080);
    assert_eq!(session.codec_type, 0x6876_6331);
    assert!(session.specification.require_hardware_acceleration);
    assert_eq!(session.specification.entry_count, 1);
}

#[test]
fn failed_session_creation_is_an_initialization_error() {
    assert_eq!(
        Encoder::new(1920, 1080, -12908).unwrap_err(),
        EncodeError::InitializationError(-12908)
    );
}

#[test]
fn failed_pixel_buffer_is_an_error() {
    let mut encoder = Encoder::new(16, 16, 0).unwrap();
    assert_eq!(
        encoder.encode_blocking(-6661, 500),
        Err(EncodeError::PixelBufferCreationError(-6661))
    );
    assert_eq!(encoder.encode_blocking(0, 500), Ok(500));
}

#[test]
fn sync_sample_is_told_by_the_first_attachment() {
    assert!(sample(vec![], vec![None]).is_sync_sample());
    assert!(sample(vec![], vec![Some(false)]).is_sync_sample());
    assert!(!sample(vec![], vec![Some(true)]).is_sync_sample());
    assert!(!sample(vec![], vec![]).is_sync_sample());
    assert!(sample(vec![], vec![None, Some(true)]).is_sync_sample());
    assert!(!sample(vec![], vec![Some(true), None]).is_sync_sample());
}

#[test]
fn frame_that_is_no_key_frame_has_no_parameter_sets() {
    let hardware_sample = sample(
        vec![0x00, 0x00, 0x00, 0x02, 0x02, 0x01, 0x00, 0x00, 0x00, 0x01, 0x4e],
        vec![Some(true)],
    );
    assert_eq!(
        encode_callback(&hardware_sample),
        Ok(vec![0x00, 0x00, 0x00, 0x01, 0x02, 0x01, 0x00, 0x00, 0x00, 0x01, 0x4e])
    );
    assert_eq!(hardware_sample.total_sample_size(), 11);
}

#[test]
fn malformed_sample_is_refused() {
    let hardware_sample = sample(vec![0x00, 0x00, 0x00, 0x09, 0x02, 0x01], vec![Some(true)]);
    assert_eq!(encode_callback(&hardware_sample), Err(HevcError::MalformedBitstream));
    let key_frame = sample(vec![0x00, 0x00, 0x00, 0x09, 0x28, 0x01], vec![None]);
    assert_eq!(encode_callback(&key_frame), Err(HevcError::MalformedBitstream));
}

#[test]
fn parameter_sets_have_fixed_places() {
    assert_eq!(HevcParam::Vps.index(), 0);
    assert_eq!(HevcParam::Sps.index(), 1);
    assert_eq!(HevcParam::Pps.index(), 2);
    let format = CMFormatDescription::from_hevc_parameter_sets(&[1, 2], &[3], &[4, 5, 6]);
    assert_eq!(get_hevc_param(&format, HevcParam::Vps), Some(vec![1, 2]));
    assert_eq!(get_hevc_param(&format, HevcParam::Sps), Some(vec![3]));
    assert_eq!(get_hevc_param(&format, HevcParam::Pps), Some(vec![4, 5, 6]));
    let empty = CMFormatDescription::empty();
    assert_eq!(get_hevc_param(&empty, HevcParam::Vps), None);
    assert_eq!(empty.parameter_set_count(), 0);
}

#[test]
fn four_character_codes() {
    assert_eq!(fourcc(&[0x68, 0x76, 0x63, 0x31]), 0x6876_6331);
    assert_eq!(fourcc(&[0x42, 0x47, 0x52, 0x41]), 0x4247_5241);
    assert_eq!(fourcc(&[0x00, 0x00, 0x00, 0x20]), 32);
    assert_eq!(fourcc(&[0xff, 0xff, 0xff, 0xff]), u32::MAX);
    assert_eq!(video_toolbox::media::hevc_codec_type(), 0x6876_6331);
    assert_eq!(video_toolbox::media::bgra_pixel_format(), 0x4247_5241);
}

#[test]
fn times_of_a_frame() {
    assert_eq!(CMTime::frame_time(), CMTime { value: 0, timescale: 1, flags: 0, epoch: 0 });
    assert_eq!(CMTime::invalid(), CMTime { value: 0, timescale: 0, flags: 0, epoch: 0 });
}

#[test]
fn writing_keeps_the_rest_of_the_buffer() {
    let mut dst = vec![9u8; 5];
    assert_eq!(write_to_buffer(&mut dst, &[1, 2, 3]), 3);
    assert_eq!(dst, vec![1, 2, 3, 9, 9]);
    assert_eq!(write_to_buffer(&mut dst, &[]), 0);
    assert_eq!(dst, vec![1, 2, 3, 9, 9]);
    assert_eq!(write_to_buffer(&mut dst, &[5, 4, 3, 2, 1]), 5);
    assert_eq!(dst, vec![5, 4, 3, 2, 1]);
}

#[test]
fn sessions_demand_hardware() {
    let specification = SessionSpecification::hardware_only();
    assert!(specification.require_hardware_acceleration);
    assert_eq!(specification.entry_count, 1);
}
