use video_toolbox::{nal_units, NalIterator, NalType};

fn types_of(bytes: &[u8]) -> Vec<NalType> {
    let mut types = Vec::new();
    for nal in nal_units(bytes) {
        types.push(nal.nal_type);
    }
    types
}

fn payloads_of(bytes: &[u8]) -> Vec<Vec<u8>> {
    let mut payloads = Vec::new();
    for nal in nal_units(bytes) {
        payloads.push(nal.data.to_vec());
    }
    payloads
}

#[test]
fn empty_buffer_has_no_units() {
    assert!(nal_units(&[]).is_empty());
    let mut iter = NalIterator::new(&[]);
    assert!(iter.next().is_none());
    assert!(iter.next().is_none());
}

#[test]
fn buffer_without_start_code_has_no_units() {
    let bytes: [u8; 8] = [0x40, 0x00, 0x00, 0x02, 0xff, 0x00, 0x00, 0x03];
    assert!(nal_units(&bytes).is_empty());
    let zeros: [u8; 16] = [0; 16];
    assert!(nal_units(&zeros).is_empty());
}

#[test]
fn start_code_at_the_very_end_has_no_unit_behind_it() {
    let bytes: [u8; 4] = [0x00, 0x00, 0x00, 0x01];
    assert!(nal_units(&bytes).is_empty());
    let short: [u8; 3] = [0x00, 0x00, 0x01];
    assert!(nal_units(&short).is_empty());
    let lone: [u8; 2] = [0x40, 0x01];
    assert!(nal_units(&lone).is_empty());
}

#[test]
fn lone_one_byte_before_the_last_byte_starts_a_unit() {
    // No start code at all, only a stray 01: the scan takes it for one.
    let bytes: [u8; 2] = [0x01, 0x40];
    let units = nal_units(&bytes);
    assert_eq!(units.len(), 1);
    assert_eq!(units[0].nal_type, NalType::Vps);
    assert_eq!(units[0].data, &[0x40u8][..]);
}

#[test]
fn single_unit_with_three_byte_start_code() {
    let bytes: [u8; 6] = [0x00, 0x00, 0x01, 0x40, 0x01, 0x0c];
    let units = nal_units(&bytes);
    assert_eq!(units.len(), 1);
    assert_eq!(units[0].nal_type, NalType::Vps);
    assert_eq!(units[0].data, &[0x40u8, 0x01, 0x0c][..]);
}

#[test]
fn single_unit_with_four_byte_start_code() {
    let bytes: [u8; 7] = [0x00, 0x00, 0x00, 0x01, 0x42, 0x01, 0x01];
    let units = nal_units(&bytes);
    assert_eq!(units.len(), 1);
    assert_eq!(units[0].nal_type, NalType::Sps);
    assert_eq!(units[0].data, &[0x42u8, 0x01, 0x01][..]);
}

#[test]
fn unit_shorter_than_three_bytes_is_one_unit() {
    let one: [u8; 4] = [0x00, 0x00, 0x01, 0x44];
    assert_eq!(payloads_of(&one), vec![vec![0x44u8]]);
    assert_eq!(types_of(&one), vec![NalType::Pps]);
    let two: [u8; 5] = [0x00, 0x00, 0x01, 0x44, 0x01];
    assert_eq!(payloads_of(&two), vec![vec![0x44u8, 0x01]]);
}

#[test]
fn leading_garbage_is_skipped() {
    let bytes: [u8; 9] = [0xde, 0xad, 0xbe, 0xef, 0x00, 0x00, 0x01, 0x28, 0x01];
    let units = nal_units(&bytes);
    assert_eq!(units.len(), 1);
    assert_eq!(units[0].nal_type, NalType::CodedSliceIdrNLp);
    assert_eq!(units[0].data, &[0x28u8, 0x01][..]);
}

#[test]
fn stray_one_before_the_first_start_code_is_taken_for_its_end() {
    // The 01 at index 1 ends the search for the first start code, so the
    // first unit begins at 0x7f, and the real start code ends it.
    let bytes: [u8; 9] = [0xaa, 0x01, 0x7f, 0x10, 0x00, 0x00, 0x01, 0x40, 0x01];
    let units = nal_units(&bytes);
    assert_eq!(units.len(), 2);
    assert_eq!(units[0].nal_type, NalType::Unspecified63);
    assert_eq!(units[0].data, &[0x7fu8, 0x10][..]);
    assert_eq!(units[1].nal_type, NalType::Vps);
    assert_eq!(units[1].data, &[0x40u8, 0x01][..]);
}

#[test]
fn mixed_start_codes_split_the_stream() {
    let bytes: [u8; 20] = [
        0x00, 0x00, 0x00, 0x01, 0x40, 0x01, 0x0c, // VPS behind a long start code
        0x00, 0x00, 0x01, 0x42, 0x01, 0x02, // SPS behind a short one
        0x00, 0x00, 0x00, 0x01, 0x44, 0x01, 0xc1, // PPS behind a long one
    ];
    assert_eq!(types_of(&bytes), vec![NalType::Vps, NalType::Sps, NalType::Pps]);
    assert_eq!(
        payloads_of(&bytes),
        vec![vec![0x40u8, 0x01, 0x0c], vec![0x42, 0x01, 0x02], vec![0x44, 0x01, 0xc1]]
    );
}

#[test]
fn payload_does_not_hold_the_following_start_code() {
    let bytes: [u8; 14] =
        [0x00, 0x00, 0x01, 0x02, 0xaa, 0xbb, 0x00, 0x00, 0x00, 0x01, 0x04, 0xcc, 0xdd, 0xee];
    let units = nal_units(&bytes);
    assert_eq!(units.len(), 2);
    assert_eq!(units[0].data, &[0x02u8, 0xaa, 0xbb][..]);
    assert_eq!(units[0].nal_type, NalType::CodedSliceTrailR);
    assert_eq!(units[1].data, &[0x04u8, 0xcc, 0xdd, 0xee][..]);
    assert_eq!(units[1].nal_type, NalType::CodedSliceTsaN);
}

#[test]
fn zero_byte_before_a_short_start_code_goes_with_the_start_code() {
    // 02 aa 00 | 00 00 01 | 04: the scan reads a long start code.
    let bytes: [u8; 10] = [0x00, 0x00, 0x01, 0x02, 0xaa, 0x00, 0x00, 0x00, 0x01, 0x04];
    assert_eq!(payloads_of(&bytes), vec![vec![0x02u8, 0xaa], vec![0x04]]);
}

#[test]
fn start_code_in_the_last_bytes_is_part_of_the_last_unit() {
    // A 00 00 01 with nothing behind it does not end a unit.
    let bytes: [u8; 8] = [0x00, 0x00, 0x01, 0x26, 0x01, 0x00, 0x00, 0x01];
    assert_eq!(payloads_of(&bytes), vec![vec![0x26u8, 0x01, 0x00, 0x00, 0x01]]);
    assert_eq!(types_of(&bytes), vec![NalType::CodedSliceIdrWRadl]);
}

#[test]
fn start_code_right_behind_a_start_code_gives_an_empty_unit() {
    // Behind the first start code stands 00 00 01 at once: the unit before
    // it is empty, and its type is read from the zero byte.
    let bytes: [u8; 8] = [0x00, 0x00, 0x01, 0x00, 0x00, 0x01, 0x40, 0x01];
    let units = nal_units(&bytes);
    assert_eq!(units.len(), 2);
    assert_eq!(units[0].nal_type, NalType::CodedSliceTrailN);
    assert!(units[0].data.is_empty());
    assert_eq!(units[1].nal_type, NalType::Vps);
    assert_eq!(units[1].data, &[0x40u8, 0x01][..]);
}

#[test]
fn type_is_read_from_bits_one_to_six() {
    // 0xc1 = 1100_0001: the top bit and the lowest bit are dropped.
    let bytes: [u8; 5] = [0x00, 0x00, 0x01, 0xc1, 0x00];
    assert_eq!(types_of(&bytes), vec![NalType::Vps]);
    let all_ones: [u8; 5] = [0x00, 0x00, 0x01, 0xff, 0x00];
    assert_eq!(types_of(&all_ones), vec![NalType::Unspecified63]);
}

#[test]
fn iterator_hands_out_units_one_by_one() {
    let bytes: [u8; 10] = [0x00, 0x00, 0x01, 0x40, 0x01, 0x00, 0x00, 0x01, 0x42, 0x01];
    let mut iter = NalIterator::new(&bytes);
    let first = iter.next().unwrap();
    assert_eq!(first.nal_type, NalType::Vps);
    assert_eq!(first.data, &[0x40u8, 0x01][..]);
    let second = iter.next().unwrap();
    assert_eq!(second.nal_type, NalType::Sps);
    assert_eq!(second.data, &[0x42u8, 0x01][..]);
    assert!(iter.next().is_none());
    assert!(iter.next().is_none());
}

#[test]
fn next_header_finds_the_first_start_code() {
    let long: [u8; 7] = [0x40, 0x01, 0x00, 0x00, 0x00, 0x01, 0x42];
    assert_eq!(NalIterator::next_header(&long), Some((2, 5)));
    let short: [u8; 6] = [0x40, 0x01, 0x00, 0x00, 0x01, 0x42];
    assert_eq!(NalIterator::next_header(&short), Some((2, 4)));
    let at_front: [u8; 4] = [0x00, 0x00, 0x01, 0x42];
    assert_eq!(NalIterator::next_header(&at_front), Some((0, 2)));
    let two: [u8; 9] = [0x40, 0x00, 0x00, 0x01, 0x42, 0x00, 0x00, 0x01, 0x44];
    assert_eq!(NalIterator::next_header(&two), Some((1, 3)));
}

#[test]
fn next_header_finds_nothing() {
    assert_eq!(NalIterator::next_header(&[]), None);
    assert_eq!(NalIterator::next_header(&[0x00, 0x01]), None);
    // The closing 01 is the last byte: no start code.
    assert_eq!(NalIterator::next_header(&[0x00, 0x00, 0x01]), None);
    assert_eq!(NalIterator::next_header(&[0x40, 0x00, 0x00, 0x01]), None);
    // Only one zero byte before the 01.
    assert_eq!(NalIterator::next_header(&[0x40, 0x02, 0x00, 0x01, 0x42]), None);
    assert_eq!(NalIterator::next_header(&[0x40, 0x00, 0x00, 0x02, 0x42]), None);
}
