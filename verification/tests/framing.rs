//! The stream reassembly against adversarial read boundaries.

use xtb::channel::StreamChannel;
use xtb::errors::XtbError;
use xtb::frame::FrameBuffer;
use xtb::xapi_definitions::commands_stream::{GetKeepAliveResponse, GetResponse, ResponseStream};
use xtb::xapi_definitions::WireJson;

fn keep_alive_text(ts: i64) -> Vec<u8> {
    let event = ResponseStream::KeepAlive(GetResponse {
        data: GetKeepAliveResponse { timestamp: ts },
    });
    xtb::json::encode_json(&event.to_json())
}

#[test]
fn frames_survive_any_chunking() {
    // Three frames and a partial fourth, split at every byte: one-byte
    // reads are the worst cut of all, landing mid-token and mid-delimiter.
    let mut stream: Vec<u8> = Vec::new();
    for ts in [1, 2, 3] {
        stream.extend_from_slice(&keep_alive_text(ts));
        stream.extend_from_slice(b"\n\n");
    }
    stream.extend_from_slice(b"{\"command\":\"keepAl");
    let mut buffer = FrameBuffer::new(4096);
    let mut collected: Vec<Vec<u8>> = Vec::new();
    for b in &stream {
        let got = buffer.on_bytes(std::slice::from_ref(b)).expect("within bound");
        collected.extend(got);
    }
    assert_eq!(collected.len(), 3);
    for (i, frame) in collected.iter().enumerate() {
        assert_eq!(*frame, keep_alive_text((i + 1) as i64));
    }
    assert_eq!(buffer.data, b"{\"command\":\"keepAl".to_vec());
}

#[test]
fn three_events_and_a_partial_fourth() {
    // One read carrying three complete events and the head of a fourth
    // yields exactly three dispatched events; completing the fourth in a
    // second read yields exactly one more.
    let mut channel = StreamChannel::new(8192, 3);
    let e4 = keep_alive_text(4);
    let (head, tail) = e4.split_at(10);
    let mut first_read: Vec<u8> = Vec::new();
    for ts in [1, 2, 3] {
        first_read.extend_from_slice(&keep_alive_text(ts));
        first_read.extend_from_slice(b"\n\n");
    }
    first_read.extend_from_slice(head);
    let (events, keep_going) = channel.on_read(&first_read).expect("within bound");
    assert!(keep_going);
    assert_eq!(events.len(), 3);
    for (i, e) in events.iter().enumerate() {
        let expect = ResponseStream::KeepAlive(GetResponse {
            data: GetKeepAliveResponse { timestamp: (i + 1) as i64 },
        });
        assert_eq!(e.as_ref().expect("all three decode"), &expect);
    }
    let mut second_read: Vec<u8> = tail.to_vec();
    second_read.extend_from_slice(b"\n\n");
    let (more, keep_going) = channel.on_read(&second_read).expect("within bound");
    assert!(keep_going);
    assert_eq!(more.len(), 1);
    let expect = ResponseStream::KeepAlive(GetResponse {
        data: GetKeepAliveResponse { timestamp: 4 },
    });
    assert_eq!(more[0].as_ref().expect("the fourth decodes"), &expect);
}

#[test]
fn malformed_frame_is_skipped_not_fatal() {
    let mut channel = StreamChannel::new(8192, 3);
    let mut read: Vec<u8> = Vec::new();
    read.extend_from_slice(&keep_alive_text(1));
    read.extend_from_slice(b"\n\nnot json at all\n\n");
    read.extend_from_slice(&keep_alive_text(2));
    read.extend_from_slice(b"\n\n");
    let (events, keep_going) = channel.on_read(&read).expect("within bound");
    assert!(keep_going);
    assert_eq!(events.len(), 3);
    assert!(events[0].is_ok());
    match &events[1] {
        Err(XtbError::DecodeError { raw, detail }) => {
            assert_eq!(raw, &b"not json at all".to_vec());
            assert_eq!(detail, &b"malformed json".to_vec());
        }
        other => panic!("expected a decode error, got {:?}", other),
    }
    assert!(events[2].is_ok());
}

#[test]
fn invalid_utf8_frame_is_skipped_with_its_diagnostic() {
    let mut channel = StreamChannel::new(8192, 3);
    let mut read: Vec<u8> = Vec::new();
    read.extend_from_slice(b"{\"command\":\"keepAlive\",\"data\":{\"timestamp\":\xff}}\n\n");
    read.extend_from_slice(&keep_alive_text(9));
    read.extend_from_slice(b"\n\n");
    let (events, keep_going) = channel.on_read(&read).expect("within bound");
    assert!(keep_going);
    assert_eq!(events.len(), 2);
    match &events[0] {
        Err(XtbError::DecodeError { detail, .. }) => {
            assert_eq!(detail, &b"invalid utf-8".to_vec());
        }
        other => panic!("expected a decode error, got {:?}", other),
    }
    assert!(events[1].is_ok());
}

#[test]
fn consecutive_zero_reads_end_the_stream() {
    let mut channel = StreamChannel::new(1024, 3);
    let (_, going1) = channel.on_read(b"").unwrap();
    assert!(going1);
    let (_, going2) = channel.on_read(b"").unwrap();
    assert!(going2);
    let (_, going3) = channel.on_read(b"").unwrap();
    assert!(!going3);
}

#[test]
fn data_resets_the_zero_read_count() {
    let mut channel = StreamChannel::new(1024, 2);
    channel.on_read(b"").unwrap();
    let (_, going) = channel.on_read(b"x").unwrap();
    assert!(going);
    assert_eq!(channel.zero_reads, 0);
    let (_, going1) = channel.on_read(b"").unwrap();
    assert!(going1);
    let (_, going2) = channel.on_read(b"").unwrap();
    assert!(!going2);
}

#[test]
fn oversized_read_is_refused_and_buffer_kept() {
    let mut buffer = FrameBuffer::new(8);
    buffer.on_bytes(b"abcd").expect("fits");
    match buffer.on_bytes(b"efghij") {
        Err(XtbError::DecodeError { raw, detail }) => {
            assert_eq!(raw, b"efghij".to_vec());
            assert_eq!(detail, b"frame buffer bound exceeded".to_vec());
        }
        other => panic!("expected a decode error, got {:?}", other),
    }
    assert_eq!(buffer.data, b"abcd".to_vec());
}

#[test]
fn empty_frames_between_delimiters_are_surfaced() {
    let mut buffer = FrameBuffer::new(64);
    let frames = buffer.on_bytes(b"a\n\n\n\nb\n\n").expect("fits");
    assert_eq!(frames, vec![b"a".to_vec(), b"".to_vec(), b"b".to_vec()]);
    assert_eq!(buffer.data, b"".to_vec());
}
