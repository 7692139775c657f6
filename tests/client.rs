use bytes::Bytes;
use video_service::client::{HandshakeError, VideoConnection, BUFFER_CAPACITY, FLUSH_THRESHOLD};
use video_service::protocol::ParseError;

#[test]
fn command_frames() {
    let c = VideoConnection::new();
    assert_eq!(c.start_uploading("a.bin"), b"UPLOAD a.bin".to_vec());
    assert_eq!(c.start_recieving("b c.mp4"), b"GET b c.mp4".to_vec());
}

#[test]
fn ok_reply_is_accepted() {
    assert_eq!(VideoConnection::get_response(Some(&b"OK "[..])), Ok(()));
    assert_eq!(VideoConnection::get_response(Some(&b"OK"[..])), Ok(()));
}

#[test]
fn error_reply_fails_with_its_message() {
    let e = VideoConnection::get_response(Some(&b"ERROR file already exists"[..])).unwrap_err();
    assert_eq!(e, HandshakeError::Refused { message: "file already exists".to_string() });
    assert_eq!(e.message(), "file already exists");
}

#[test]
fn missing_reply_fails() {
    let e = VideoConnection::get_response(None).unwrap_err();
    assert_eq!(e, HandshakeError::NoResponse);
    assert_eq!(e.message(), "There is no response from video service");
}

#[test]
fn non_text_reply_fails() {
    assert_eq!(VideoConnection::get_response(Some(&[0x4fu8, 0x4b, 0x20, 0xc3][..])), Err(HandshakeError::NotText));
}

#[test]
fn unparsable_reply_fails() {
    assert_eq!(
        VideoConnection::get_response(Some(&b"HELLO there"[..])),
        Err(HandshakeError::Malformed(ParseError::UnknownVerb { verb: "HELLO".to_string() }))
    );
    assert_eq!(VideoConnection::get_response(Some(&b"ERROR"[..])), Err(HandshakeError::Malformed(ParseError::MissingMessage)));
    let e = VideoConnection::get_response(Some(&b""[..])).unwrap_err();
    assert_eq!(e.message(), "empty input");
}

#[test]
fn buffer_constants() {
    assert_eq!(BUFFER_CAPACITY, 1 << 24);
    assert_eq!(FLUSH_THRESHOLD, 1 << 23);
}

#[test]
fn small_sends_stay_buffered_until_flush() {
    let mut c = VideoConnection::new();
    assert!(c.buffered_send(Bytes::copy_from_slice(b"abc")).is_none());
    assert!(c.buffered_send(Bytes::copy_from_slice(b"de")).is_none());
    let f = c.flush();
    assert_eq!(&f[..], b"abcde");
    assert_eq!(&c.flush()[..], b"");
}

#[test]
fn flush_of_empty_buffer_sends_empty_frame() {
    let mut c = VideoConnection::new();
    assert_eq!(c.flush().len(), 0);
}

#[test]
fn reaching_threshold_sends_whole_buffer() {
    let mut c = VideoConnection::new();
    let first = vec![1u8; FLUSH_THRESHOLD - 1];
    assert!(c.buffered_send(Bytes::from(first.clone())).is_none());
    let out = c.buffered_send(Bytes::from(vec![2u8, 3u8])).expect("threshold reached");
    assert_eq!(out.len(), FLUSH_THRESHOLD + 1);
    assert_eq!(&out[..FLUSH_THRESHOLD - 1], &first[..]);
    assert_eq!(&out[FLUSH_THRESHOLD - 1..], &[2u8, 3u8]);
    assert_eq!(c.flush().len(), 0);
}

#[test]
fn exactly_threshold_is_sent() {
    let mut c = VideoConnection::new();
    let out = c.buffered_send(Bytes::from(vec![7u8; FLUSH_THRESHOLD]));
    assert_eq!(out.map(|b| b.len()), Some(FLUSH_THRESHOLD));
}

#[test]
fn frames_and_flush_concatenate_to_the_sends() {
    let mut c = VideoConnection::new();
    let sizes = [3_000_000usize, 1, 5_400_000, 0, 8_388_608, 77, 2_000_000];
    let mut sent = Vec::new();
    let mut wire = Vec::new();
    let mut frames = 0;
    for (k, n) in sizes.iter().enumerate() {
        let chunk: Vec<u8> = (0..*n).map(|i| ((i * 31 + k * 7) % 251) as u8).collect();
        sent.extend_from_slice(&chunk);
        if let Some(f) = c.buffered_send(Bytes::from(chunk)) {
            frames += 1;
            wire.extend_from_slice(&f);
        }
    }
    wire.extend_from_slice(&c.flush());
    assert!(frames >= 2);
    assert_eq!(wire, sent);
}

fn wire_bytes(slices: &[Vec<u8>]) -> (usize, Vec<u8>) {
    let mut c = VideoConnection::new();
    let mut wire = Vec::new();
    let mut frames = 0;
    for s in slices {
        if let Some(f) = c.buffered_send(Bytes::copy_from_slice(s)) {
            frames += 1;
            wire.extend_from_slice(&f);
        }
    }
    wire.extend_from_slice(&c.flush());
    (frames, wire)
}

#[test]
fn slicing_does_not_change_the_bytes_on_the_wire() {
    let data: Vec<u8> = (0..9_000_000usize).map(|i| (i % 241) as u8).collect();
    let one = vec![data.clone()];
    let many: Vec<Vec<u8>> = data.chunks(1_234_567).map(|c| c.to_vec()).collect();
    let (_, a) = wire_bytes(&one);
    let (_, b) = wire_bytes(&many);
    assert!(a == b);
    assert!(a == data);
}

#[test]
fn ten_mebibytes_leave_as_one_frame_plus_flush() {
    let data: Vec<u8> = (0..10 * 1024 * 1024usize).map(|i| (i * 13 % 256) as u8).collect();
    let slices: Vec<Vec<u8>> = data.chunks(999_999).map(|c| c.to_vec()).collect();
    let (frames, wire) = wire_bytes(&slices);
    assert_eq!(frames, 1);
    assert!(wire == data);
}
