use uwb_serial_hal::frame::{frame_length, message_type, payload_length};
use uwb_serial_hal::reader::{FrameReader, ReadEvent, ReaderAction};

/// Feeds `chunks` to a fresh reader, acknowledging each delivery, and
/// returns the frames handed out and the last action.
fn run(chunks: &[&[u8]]) -> (Vec<Vec<u8>>, ReaderAction) {
    let mut reader = FrameReader::new();
    let mut frames = Vec::new();
    let mut last = ReaderAction::Read(reader.wanted());
    for chunk in chunks {
        last = reader.on_event(ReadEvent::Bytes(chunk.to_vec()));
        if let ReaderAction::Deliver(frame) = last {
            frames.push(frame);
            last = reader.on_event(ReadEvent::Delivered);
        }
    }
    (frames, last)
}

#[test]
fn message_type_is_top_three_bits() {
    assert_eq!(message_type(0x00), 0);
    assert_eq!(message_type(0x20), 1);
    assert_eq!(message_type(0x41), 2);
    assert_eq!(message_type(0x7f), 3);
    assert_eq!(message_type(0xe0), 7);
}

#[test]
fn data_frame_length_is_sixteen_bit_little_endian() {
    assert_eq!(payload_length(&[0x00, 0x00, 0x02, 0x00]), 2);
    assert_eq!(payload_length(&[0x00, 0x00, 0x00, 0x01]), 256);
    assert_eq!(payload_length(&[0x0f, 0x00, 0xff, 0xff]), 65535);
    assert_eq!(frame_length(&[0x00, 0x00, 0x34, 0x12]), 4 + 0x1234);
}

#[test]
fn control_frame_length_is_byte_three() {
    assert_eq!(payload_length(&[0x20, 0x00, 0x02, 0x05]), 5);
    assert_eq!(payload_length(&[0x40, 0x00, 0xff, 0x00]), 0);
    assert_eq!(frame_length(&[0x60, 0x01, 0x00, 0xff]), 4 + 255);
}

#[test]
fn data_frame_delivered_as_one_unit() {
    let (frames, last) = run(&[&[0x00, 0x00, 0x02, 0x00], &[0xaa, 0xbb]]);
    assert_eq!(frames, vec![vec![0x00, 0x00, 0x02, 0x00, 0xaa, 0xbb]]);
    assert_eq!(last, ReaderAction::Read(4));
}

#[test]
fn header_then_payload_reads_ask_for_exact_counts() {
    let mut reader = FrameReader::new();
    assert_eq!(reader.wanted(), 4);
    assert_eq!(reader.on_event(ReadEvent::Bytes(vec![0x00])), ReaderAction::Read(3));
    assert_eq!(reader.on_event(ReadEvent::Bytes(vec![0x00, 0x02, 0x00])), ReaderAction::Read(2));
    assert_eq!(reader.on_event(ReadEvent::Bytes(vec![0xaa])), ReaderAction::Read(1));
    assert_eq!(
        reader.on_event(ReadEvent::Bytes(vec![0xbb])),
        ReaderAction::Deliver(vec![0x00, 0x00, 0x02, 0x00, 0xaa, 0xbb])
    );
    assert_eq!(reader.on_event(ReadEvent::Delivered), ReaderAction::Read(4));
}

#[test]
fn zero_payload_frame_delivered_after_header() {
    let (frames, _) = run(&[&[0x20, 0x00, 0x00, 0x00]]);
    assert_eq!(frames, vec![vec![0x20, 0x00, 0x00, 0x00]]);
}

#[test]
fn back_to_back_frames_in_odd_chunks() {
    // A control frame with 3 payload bytes, a data frame with 2, an empty one.
    let (frames, last) = run(&[
        &[0x40],
        &[0x00, 0x00],
        &[0x03],
        &[0x01, 0x02],
        &[0x03],
        &[0x00, 0x00, 0x02, 0x00],
        &[0xaa],
        &[0xbb],
        &[0x60, 0x01, 0x00],
        &[0x00],
    ]);
    assert_eq!(
        frames,
        vec![
            vec![0x40, 0x00, 0x00, 0x03, 0x01, 0x02, 0x03],
            vec![0x00, 0x00, 0x02, 0x00, 0xaa, 0xbb],
            vec![0x60, 0x01, 0x00, 0x00],
        ]
    );
    assert_eq!(last, ReaderAction::Read(4));
}

#[test]
fn large_data_frame_length() {
    let mut chunk = vec![0x00, 0x00, 0x00, 0x01];
    let payload: Vec<u8> = (0..256).map(|i| i as u8).collect();
    let mut reader = FrameReader::new();
    assert_eq!(reader.on_event(ReadEvent::Bytes(chunk.clone())), ReaderAction::Read(256));
    chunk.extend_from_slice(&payload);
    assert_eq!(reader.on_event(ReadEvent::Bytes(payload)), ReaderAction::Deliver(chunk));
}

#[test]
fn cancel_while_waiting_for_first_byte_stops() {
    let mut reader = FrameReader::new();
    assert_eq!(reader.on_event(ReadEvent::WouldBlock), ReaderAction::WaitReadableOrCancel);
    assert_eq!(reader.on_event(ReadEvent::Cancelled), ReaderAction::Stop);
    // Nothing more is read once stopped.
    assert_eq!(reader.on_event(ReadEvent::Readable), ReaderAction::Stop);
    assert_eq!(reader.on_event(ReadEvent::Bytes(vec![0x20])), ReaderAction::Stop);
}

#[test]
fn cancel_between_frames_stops() {
    let (frames, last) = run(&[&[0x20, 0x00, 0x00, 0x00]]);
    assert_eq!(frames.len(), 1);
    assert_eq!(last, ReaderAction::Read(4));
    let mut reader = FrameReader::new();
    reader.on_event(ReadEvent::Bytes(vec![0x20, 0x00, 0x00, 0x00]));
    reader.on_event(ReadEvent::Delivered);
    assert_eq!(reader.on_event(ReadEvent::Cancelled), ReaderAction::Stop);
}

#[test]
fn frame_in_progress_ignores_cancel_and_busy_retries() {
    let mut reader = FrameReader::new();
    assert_eq!(reader.on_event(ReadEvent::Bytes(vec![0x20, 0x00])), ReaderAction::Read(2));
    assert_eq!(reader.on_event(ReadEvent::WouldBlock), ReaderAction::Read(2));
    assert_eq!(reader.on_event(ReadEvent::Cancelled), ReaderAction::Read(2));
    assert_eq!(reader.on_event(ReadEvent::Bytes(vec![0x00, 0x01])), ReaderAction::Read(1));
    assert_eq!(
        reader.on_event(ReadEvent::Bytes(vec![0x09])),
        ReaderAction::Deliver(vec![0x20, 0x00, 0x00, 0x01, 0x09])
    );
}

#[test]
fn readable_retries_read() {
    let mut reader = FrameReader::new();
    assert_eq!(reader.on_event(ReadEvent::WouldBlock), ReaderAction::WaitReadableOrCancel);
    assert_eq!(reader.on_event(ReadEvent::Readable), ReaderAction::Read(4));
}

#[test]
fn end_of_stream_stops() {
    let mut reader = FrameReader::new();
    reader.on_event(ReadEvent::Bytes(vec![0x20]));
    assert_eq!(reader.on_event(ReadEvent::Bytes(vec![])), ReaderAction::Stop);
}

#[test]
fn read_error_fails() {
    let mut reader = FrameReader::new();
    assert_eq!(reader.on_event(ReadEvent::ReadFailed), ReaderAction::Fail);
    assert_eq!(reader.on_event(ReadEvent::Readable), ReaderAction::Fail);
}

#[test]
fn overlong_chunk_fails() {
    let mut reader = FrameReader::new();
    assert_eq!(reader.on_event(ReadEvent::Bytes(vec![0x20, 0, 0, 0, 1])), ReaderAction::Fail);
}

#[test]
fn delivery_failure_fails() {
    let mut reader = FrameReader::new();
    reader.on_event(ReadEvent::Bytes(vec![0x20, 0x00, 0x00, 0x00]));
    assert_eq!(reader.on_event(ReadEvent::DeliveryFailed), ReaderAction::Fail);
}
