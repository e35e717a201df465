//! Tests for the SPI transport encoder and its bus transaction bounds.

use stm32f4xx_hal::spi::{
    encode_frame, frame_bytes, word_from_be_bytes, word_from_le_bytes, word_from_ne_bytes,
    word_to_be_bytes, word_to_le_bytes, word_to_ne_bytes, BrokenPin, DataFormat, DisplayError,
    RecordedBus, RecordedPin, SaturatingBus, SpiDisplay, STAGING_LEN,
};

#[test]
fn byte_order_round_trips() {
    for &v in &[0u16, 1, 0x1234, 0xABCD, 0xFFFF, 0x00FF, 0xFF00] {
        let (b0, b1) = word_to_be_bytes(v);
        assert_eq!(word_from_be_bytes(b0, b1), v);
        let (b0, b1) = word_to_le_bytes(v);
        assert_eq!(word_from_le_bytes(b0, b1), v);
        let (b0, b1) = word_to_ne_bytes(v);
        assert_eq!(word_from_ne_bytes(b0, b1), v);
    }
}

#[test]
fn word_slices_round_trip_through_each_order() {
    let words = vec![0x0102u16, 0xA0B0, 0xFFFF, 0x0000, 0x1234];

    let be = frame_bytes(&DataFormat::U16BE(words.clone()));
    let decoded: Vec<u16> = be
        .chunks(2)
        .map(|p| word_from_be_bytes(p[0], p[1]))
        .collect();
    assert_eq!(decoded, words);

    let le = frame_bytes(&DataFormat::U16LE(words.clone()));
    let decoded: Vec<u16> = le
        .chunks(2)
        .map(|p| word_from_le_bytes(p[0], p[1]))
        .collect();
    assert_eq!(decoded, words);

    let ne = frame_bytes(&DataFormat::U16(words.clone()));
    let decoded: Vec<u16> = ne
        .chunks(2)
        .map(|p| word_from_ne_bytes(p[0], p[1]))
        .collect();
    assert_eq!(decoded, words);
}

#[test]
fn byte_order_is_per_word() {
    assert_eq!(frame_bytes(&DataFormat::U16BE(vec![0x1234])), vec![0x12, 0x34]);
    assert_eq!(frame_bytes(&DataFormat::U16LE(vec![0x1234])), vec![0x34, 0x12]);
    assert_eq!(frame_bytes(&DataFormat::U16(vec![0x1234])), vec![0x34, 0x12]);
    assert_eq!(
        frame_bytes(&DataFormat::U16BE(vec![0x1234, 0xABCD])),
        vec![0x12, 0x34, 0xAB, 0xCD]
    );
}

#[test]
fn encode_frame_bounds_every_transaction() {
    let bytes: Vec<u8> = (0..200u16).map(|i| i as u8).collect();
    let chunks = encode_frame(&DataFormat::U8(bytes.clone()));
    assert_eq!(chunks.len(), 4);
    assert_eq!(chunks[0].len(), 64);
    assert_eq!(chunks[1].len(), 64);
    assert_eq!(chunks[2].len(), 64);
    assert_eq!(chunks[3].len(), 8);
    let rejoined: Vec<u8> = chunks.concat();
    assert_eq!(rejoined, bytes);
}

#[test]
fn encode_frame_of_empty_stream_is_empty() {
    assert!(encode_frame(&DataFormat::U8(Vec::new())).is_empty());
    assert!(encode_frame(&DataFormat::U16BEIter(Vec::new())).is_empty());
}

#[test]
fn word_slice_chunks_at_half_the_staging_size() {
    // 33 words encode to 66 bytes: one full 64-byte transaction and one of
    // 2 bytes.
    let words = vec![0x1111u16; 33];
    let chunks = encode_frame(&DataFormat::U16BE(words));
    assert_eq!(chunks.len(), 2);
    assert_eq!(chunks[0].len(), STAGING_LEN);
    assert_eq!(chunks[1].len(), 2);
}

#[test]
fn byte_iterator_of_130_bytes_issues_three_writes() {
    // A 64-byte staging buffer turns a 130-byte stream into exactly three
    // bus writes of 64, 64 and 2 bytes, in original byte order.
    let bytes: Vec<u8> = (0..130u16).map(|i| i as u8).collect();
    let mut display = SpiDisplay::new(RecordedBus::new(), RecordedPin::new());
    display.send_data(&DataFormat::U8Iter(bytes.clone())).unwrap();
    let (bus, pin) = display.release();
    assert!(pin.is_high());
    let log = bus.log();
    assert_eq!(log.len(), 3);
    assert_eq!(log[0].len(), 64);
    assert_eq!(log[1].len(), 64);
    assert_eq!(log[2].len(), 2);
    let rejoined: Vec<u8> = log.concat();
    assert_eq!(rejoined, bytes);
}

#[test]
fn send_commands_drives_dc_low() {
    let mut display = SpiDisplay::new(RecordedBus::new(), RecordedPin::new());
    display.send_data(&DataFormat::U8(vec![1, 2, 3])).unwrap();
    display.send_commands(&DataFormat::U8(vec![0x2A])).unwrap();
    let (bus, pin) = display.release();
    assert!(!pin.is_high());
    let log = bus.log();
    assert_eq!(log.len(), 2);
    assert_eq!(log[0], vec![1, 2, 3]);
    assert_eq!(log[1], vec![0x2A]);
}

#[test]
fn bus_failure_aborts_with_a_prefix_on_the_wire() {
    let bytes: Vec<u8> = (0..130u16).map(|i| i as u8).collect();
    let mut display = SpiDisplay::new(SaturatingBus::new(1), RecordedPin::new());
    let result = display.send_data(&DataFormat::U8Iter(bytes.clone()));
    assert_eq!(result, Err(DisplayError::BusWriteError));
    let (bus, _) = display.release();
    let log = bus.log();
    assert_eq!(log.len(), 1);
    assert_eq!(log[0].as_slice(), &bytes[..64]);
}

#[test]
fn dc_failure_reports_before_any_byte() {
    let mut display = SpiDisplay::new(RecordedBus::new(), BrokenPin::new());
    let result = display.send_commands(&DataFormat::U8(vec![1, 2, 3]));
    assert_eq!(result, Err(DisplayError::DCError));
    let result = display.send_data(&DataFormat::U8(vec![1, 2, 3]));
    assert_eq!(result, Err(DisplayError::DCError));
    let (bus, _) = display.release();
    assert!(bus.log().is_empty());
}

#[test]
fn iterator_and_slice_sources_issue_the_same_writes() {
    let words: Vec<u16> = (0..50u16).map(|i| i * 257).collect();
    let mut by_slice = SpiDisplay::new(RecordedBus::new(), RecordedPin::new());
    by_slice.send_data(&DataFormat::U16BE(words.clone())).unwrap();
    let mut by_iter = SpiDisplay::new(RecordedBus::new(), RecordedPin::new());
    by_iter.send_data(&DataFormat::U16BEIter(words)).unwrap();
    assert_eq!(by_slice.release().0.log(), by_iter.release().0.log());
}
