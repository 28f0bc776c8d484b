use usbd_midi_descriptors::{
    next_record, DescriptorError, DescriptorSink, EndpointInfo, MidiClass, DESCRIPTORS_LEN, IN_JACK_ID,
    OUT_JACK_ID,
};

fn fixed_class() -> MidiClass {
    MidiClass::new(0, 1, EndpointInfo::bulk(0x01, 64), EndpointInfo::bulk(0x81, 64))
}

fn expected() -> Vec<u8> {
    let mut v: Vec<u8> = Vec::new();
    v.extend_from_slice(&[9, 4, 0, 0, 0, 1, 1, 0, 0]);
    v.extend_from_slice(&[9, 0x24, 0x01, 0x00, 0x01, 0x09, 0x00, 0x01, 0x01]);
    v.extend_from_slice(&[9, 4, 1, 0, 2, 1, 3, 0, 0]);
    v.extend_from_slice(&[7, 0x24, 0x01, 0x00, 0x01, 46, 0x00]);
    v.extend_from_slice(&[6, 0x24, 0x02, 0x01, 0x01, 0x00]);
    v.extend_from_slice(&[9, 0x24, 0x03, 0x01, 0x02, 0x01, 0x01, 0x01, 0x00]);
    v.extend_from_slice(&[7, 5, 0x01, 0x02, 64, 0, 0]);
    v.extend_from_slice(&[5, 0x25, 0x01, 0x01, 0x01]);
    v.extend_from_slice(&[7, 5, 0x81, 0x02, 64, 0, 0]);
    v.extend_from_slice(&[5, 0x25, 0x01, 0x01, 0x02]);
    v
}

const RECORD_ENDS: [usize; 11] = [0, 9, 18, 27, 34, 40, 49, 56, 61, 68, 73];

/// The bytes that stand once the first `n` records are written.
fn expected_stage(n: usize) -> Vec<u8> {
    let mut v = expected();
    if n < 10 {
        v[22] = if n >= 9 { 2 } else if n >= 7 { 1 } else { 0 };
        v[32] = 0;
    }
    v.truncate(RECORD_ENDS[n]);
    v
}

fn le16(b: &[u8], i: usize) -> usize {
    b[i] as usize + 256 * b[i + 1] as usize
}

#[test]
fn fixed_allocation_gives_exact_bytes() {
    let m = fixed_class();
    let mut sink = DescriptorSink::new(256);
    assert_eq!(m.get_configuration_descriptors(&mut sink), Ok(()));
    assert_eq!(sink.as_bytes(), expected().as_slice());
    assert_eq!(sink.position(), DESCRIPTORS_LEN);
}

#[test]
fn exact_capacity_is_enough() {
    let m = fixed_class();
    let mut sink = DescriptorSink::new(DESCRIPTORS_LEN);
    assert_eq!(m.get_configuration_descriptors(&mut sink), Ok(()));
    assert_eq!(sink.as_bytes(), expected().as_slice());
}

#[test]
fn two_emissions_are_identical() {
    let m = fixed_class();
    let mut a = DescriptorSink::new(128);
    let mut b = DescriptorSink::new(128);
    assert_eq!(m.get_configuration_descriptors(&mut a), Ok(()));
    assert_eq!(m.get_configuration_descriptors(&mut b), Ok(()));
    assert_eq!(a.as_bytes(), b.as_bytes());
}

#[test]
fn emission_after_earlier_records_appends_the_same_bytes() {
    let m = fixed_class();
    let mut a = DescriptorSink::new(200);
    assert_eq!(a.write(0x0b, &[0, 2, 1, 3, 0, 0]), Ok(()));
    assert_eq!(m.get_configuration_descriptors(&mut a), Ok(()));
    assert_eq!(&a.as_bytes()[..8], &[8, 0x0b, 0, 2, 1, 3, 0, 0]);
    assert_eq!(&a.as_bytes()[8..], expected().as_slice());
}

#[test]
fn failure_at_each_record_stops_writing() {
    let m = fixed_class();
    for cap in 0..DESCRIPTORS_LEN {
        let mut sink = DescriptorSink::new(cap);
        assert_eq!(m.get_configuration_descriptors(&mut sink), Err(DescriptorError::BufferOverflow));
        let n = RECORD_ENDS.iter().filter(|&&e| e <= cap).count() - 1;
        assert_eq!(sink.as_bytes(), expected_stage(n).as_slice(), "capacity {}", cap);
    }
}

#[test]
fn patched_lengths_match_positions() {
    let m = fixed_class();
    let mut sink = DescriptorSink::new(128);
    assert_eq!(m.get_configuration_descriptors(&mut sink), Ok(()));
    let b = sink.as_bytes();
    assert_eq!(le16(b, 9 + 5), 18 - 9);
    assert_eq!(le16(b, 27 + 5), b.len() - 27);
    assert_eq!(le16(b, 14), 9);
    assert_eq!(le16(b, 32), 46);
}

#[test]
fn jack_ids_match_endpoint_references() {
    let m = fixed_class();
    let mut sink = DescriptorSink::new(128);
    assert_eq!(m.get_configuration_descriptors(&mut sink), Ok(()));
    let b = sink.as_bytes();
    assert_eq!(b[34 + 2], 0x02);
    assert_eq!(b[34 + 4], IN_JACK_ID);
    assert_eq!(b[56 + 1], 0x25);
    assert_eq!(b[56 + 4], IN_JACK_ID);
    assert_eq!(b[40 + 2], 0x03);
    assert_eq!(b[40 + 4], OUT_JACK_ID);
    assert_eq!(b[68 + 1], 0x25);
    assert_eq!(b[68 + 4], OUT_JACK_ID);
    assert_eq!(IN_JACK_ID, 1);
    assert_eq!(OUT_JACK_ID, 2);
}

#[test]
fn records_chain_by_length() {
    let m = MidiClass::new(3, 4, EndpointInfo::bulk(0x02, 512), EndpointInfo::bulk(0x83, 8));
    let mut sink = DescriptorSink::new(128);
    assert_eq!(m.get_configuration_descriptors(&mut sink), Ok(()));
    let b = sink.as_bytes();
    let mut pos = 0;
    let mut ends = vec![0];
    while pos < b.len() {
        pos += b[pos] as usize;
        ends.push(pos);
    }
    assert_eq!(ends, RECORD_ENDS.to_vec());
    assert_eq!(b[2], 3);
    assert_eq!(b[17], 4);
    assert_eq!(b[20], 4);
    assert_eq!(&b[51..54], &[0x02, 0x02, 0x00]);
    assert_eq!(b[54], 0x02);
    assert_eq!(&b[63..67], &[0x83, 0x02, 8, 0]);
}

#[test]
fn getters_report_allocation() {
    let m = fixed_class();
    assert_eq!(m.audio_control_interface(), 0);
    assert_eq!(m.midi_streaming_interface(), 1);
    assert_eq!(m.out_endpoint(), EndpointInfo::bulk(0x01, 64));
    assert_eq!(m.in_endpoint().address, 0x81);
    assert_eq!(m.in_endpoint().attributes, 0x02);
    assert_eq!(m.in_endpoint().max_packet_size, 64);
    assert_eq!(m.in_endpoint().interval, 0);
}

#[test]
fn write_frames_record() {
    let mut sink = DescriptorSink::new(16);
    assert_eq!(sink.write(0x24, &[1, 2, 3]), Ok(()));
    assert_eq!(sink.as_bytes(), &[5, 0x24, 1, 2, 3]);
    assert_eq!(sink.write(0x24, &[0; 10]), Err(DescriptorError::BufferOverflow));
    assert_eq!(sink.position(), 5);
    assert_eq!(sink.write(0x24, &[0; 9]), Ok(()));
    assert_eq!(sink.position(), 16);
}

#[test]
fn write_rejects_payload_past_length_byte() {
    let mut sink = DescriptorSink::new(1024);
    assert_eq!(sink.write(0x24, &[0; 254]), Err(DescriptorError::BufferOverflow));
    assert_eq!(sink.position(), 0);
    assert_eq!(sink.write(0x24, &[0; 253]), Ok(()));
    assert_eq!(sink.as_bytes()[0], 255);
}

#[test]
fn endpoint_without_interface_is_invalid_state() {
    let mut sink = DescriptorSink::new(64);
    assert_eq!(sink.endpoint(&EndpointInfo::bulk(0x01, 64)), Err(DescriptorError::InvalidState));
    assert_eq!(sink.position(), 0);
}

#[test]
fn endpoint_raises_interface_endpoint_count() {
    let mut sink = DescriptorSink::new(64);
    assert_eq!(sink.interface(2, 0xff, 0, 0), Ok(()));
    assert_eq!(sink.endpoint(&EndpointInfo::bulk(0x81, 0x0140)), Ok(()));
    assert_eq!(sink.endpoint(&EndpointInfo::bulk(0x01, 0x0140)), Ok(()));
    assert_eq!(
        sink.as_bytes(),
        &[9, 4, 2, 0, 2, 0xff, 0, 0, 0, 7, 5, 0x81, 2, 0x40, 0x01, 0, 7, 5, 0x01, 2, 0x40, 0x01, 0]
    );
}

#[test]
fn endpoint_that_does_not_fit_leaves_count() {
    let mut sink = DescriptorSink::new(12);
    assert_eq!(sink.interface(0, 1, 1, 0), Ok(()));
    assert_eq!(sink.endpoint(&EndpointInfo::bulk(0x81, 64)), Err(DescriptorError::BufferOverflow));
    assert_eq!(sink.as_bytes(), &[9, 4, 0, 0, 0, 1, 1, 0, 0]);
}

#[test]
fn interface_that_does_not_fit_writes_nothing() {
    let mut sink = DescriptorSink::new(8);
    assert_eq!(sink.interface(0, 1, 1, 0), Err(DescriptorError::BufferOverflow));
    assert_eq!(sink.position(), 0);
}

#[test]
fn deferred_span_is_patched_little_endian() {
    let mut sink = DescriptorSink::new(32);
    let span = sink.defer_ahead(3, 5).unwrap();
    assert_eq!(sink.write(0x24, &[0, 0, 0, 0]), Ok(()));
    assert_eq!(sink.patch_u16(span, 0x1234), Ok(()));
    assert_eq!(sink.as_bytes(), &[6, 0x24, 0, 0x34, 0x12, 0]);
}

#[test]
fn deferred_span_not_yet_written_is_invalid_state() {
    let mut sink = DescriptorSink::new(32);
    let span = sink.defer_ahead(5, 7).unwrap();
    assert_eq!(sink.write(0x24, &[0, 0]), Ok(()));
    assert_eq!(sink.patch_u16(span, 9), Err(DescriptorError::InvalidState));
    assert_eq!(sink.as_bytes(), &[4, 0x24, 0, 0]);
}

#[test]
fn deferred_span_of_wrong_width_is_invalid_state() {
    let mut sink = DescriptorSink::new(32);
    let span = sink.defer_ahead(0, 3).unwrap();
    assert_eq!(sink.write(0x24, &[0, 0]), Ok(()));
    assert_eq!(sink.patch_u16(span, 9), Err(DescriptorError::InvalidState));
}

#[test]
fn defer_rejects_reversed_or_distant_spans() {
    let mut sink = DescriptorSink::new(6);
    assert!(matches!(sink.defer_ahead(7, 5), Err(DescriptorError::InvalidState)));
    assert!(matches!(sink.defer_ahead(5, 7), Err(DescriptorError::BufferOverflow)));
    assert!(sink.defer_ahead(4, 6).is_ok());
}

#[test]
fn next_record_follows_length_bytes() {
    let b = [3u8, 0x24, 7, 2, 0x25, 9, 1];
    assert_eq!(next_record(&b, 0), Some(3));
    assert_eq!(next_record(&b, 3), Some(5));
    assert_eq!(next_record(&b, 5), None);
    assert_eq!(next_record(&b, 7), None);
    assert_eq!(next_record(&[1, 0], 0), None);
}
