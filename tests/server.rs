use video_service::server::{Action, ConnectionHandler, Event, Phase, DOWNLOAD_CHUNK};

fn frame(s: &str) -> Event {
    Event::Frame(s.as_bytes().to_vec())
}

fn run(h: &mut ConnectionHandler, events: Vec<Event>) -> Vec<Action> {
    let mut all = Vec::new();
    for e in events {
        all.extend(h.step(e));
    }
    all
}

#[test]
fn upload_of_new_name_stages_bytes_in_order() {
    let mut h = ConnectionHandler::new();
    let acts = run(
        &mut h,
        vec![
            frame("UPLOAD a.bin"),
            Event::Published(false),
            Event::Frame(vec![1, 2, 3]),
            Event::Frame(vec![]),
            Event::Frame(vec![4, 5]),
            Event::EndOfStream,
        ],
    );
    assert_eq!(
        acts,
        vec![
            Action::CheckPublished("a.bin".to_string()),
            Action::Send(b"OK ".to_vec()),
            Action::CreateStaging("a.bin".to_string()),
            Action::Append(vec![1, 2, 3]),
            Action::Append(vec![]),
            Action::Append(vec![4, 5]),
            Action::Enqueue("a.bin".to_string()),
            Action::Close,
        ]
    );
    assert!(h.is_closed());
}

#[test]
fn zero_byte_upload_is_still_queued() {
    let mut h = ConnectionHandler::new();
    let acts = run(&mut h, vec![frame("UPLOAD empty.mp4"), Event::Published(false), Event::EndOfStream]);
    assert_eq!(acts[acts.len() - 2], Action::Enqueue("empty.mp4".to_string()));
    assert_eq!(acts[acts.len() - 1], Action::Close);
}

#[test]
fn upload_of_published_name_is_refused() {
    let mut h = ConnectionHandler::new();
    let acts = run(
        &mut h,
        vec![frame("UPLOAD a.bin"), Event::Published(true), Event::Frame(vec![9, 9]), Event::EndOfStream],
    );
    assert_eq!(
        acts,
        vec![
            Action::CheckPublished("a.bin".to_string()),
            Action::Send(b"ERROR file already exists".to_vec()),
            Action::Close,
        ]
    );
}

#[test]
fn download_of_published_name_sends_every_chunk() {
    let mut h = ConnectionHandler::new();
    let acts = run(
        &mut h,
        vec![
            frame("GET movie.mp4"),
            Event::Published(true),
            Event::Chunk(vec![10, 11]),
            Event::Chunk(vec![12]),
            Event::Chunk(vec![]),
        ],
    );
    assert_eq!(
        acts,
        vec![
            Action::CheckPublished("movie.mp4".to_string()),
            Action::Send(b"OK ".to_vec()),
            Action::OpenPublished("movie.mp4".to_string()),
            Action::ReadChunk,
            Action::Send(vec![10, 11]),
            Action::ReadChunk,
            Action::Send(vec![12]),
            Action::ReadChunk,
            Action::Close,
        ]
    );
    assert!(h.is_closed());
}

#[test]
fn download_of_empty_file_sends_no_payload() {
    let mut h = ConnectionHandler::new();
    let acts = run(&mut h, vec![frame("GET e"), Event::Published(true), Event::Chunk(vec![])]);
    let payload: Vec<&Action> = acts.iter().filter(|a| matches!(a, Action::Send(_))).collect();
    assert_eq!(payload, vec![&Action::Send(b"OK ".to_vec())]);
    assert_eq!(acts.last(), Some(&Action::Close));
}

#[test]
fn parse_error_is_reported_then_closed() {
    let mut h = ConnectionHandler::new();
    let acts = run(&mut h, vec![frame("PUT x"), Event::Frame(vec![1])]);
    assert_eq!(acts, vec![Action::Send(b"ERROR unknown command: PUT".to_vec()), Action::Close]);
}

#[test]
fn missing_filename_is_reported() {
    let mut h = ConnectionHandler::new();
    let acts = h.step(frame("GET"));
    assert_eq!(acts, vec![Action::Send(b"ERROR GET must be followed by a filename".to_vec()), Action::Close]);
}

#[test]
fn empty_first_frame_is_reported() {
    let mut h = ConnectionHandler::new();
    let acts = h.step(Event::Frame(vec![]));
    assert_eq!(acts, vec![Action::Send(b"ERROR empty input".to_vec()), Action::Close]);
}

#[test]
fn immediate_end_of_stream_closes_silently() {
    let mut h = ConnectionHandler::new();
    assert_eq!(h.step(Event::EndOfStream), vec![Action::Close]);
    assert!(h.is_closed());
    assert_eq!(h.step(Event::Frame(vec![1])), vec![]);
}

#[test]
fn read_failure_closes_silently() {
    let mut h = ConnectionHandler::new();
    assert_eq!(h.step(Event::Failure), vec![Action::Close]);
}

#[test]
fn non_utf8_command_closes_silently() {
    let mut h = ConnectionHandler::new();
    assert_eq!(h.step(Event::Frame(vec![b'G', b'E', b'T', b' ', 0xff])), vec![Action::Close]);
}

#[test]
fn command_split_across_frames_fails_to_parse() {
    let mut h = ConnectionHandler::new();
    let acts = h.step(frame("UPLO"));
    assert_eq!(acts, vec![Action::Send(b"ERROR unknown command: UPLO".to_vec()), Action::Close]);
}

#[test]
fn failure_during_upload_aborts_without_queueing() {
    let mut h = ConnectionHandler::new();
    let acts = run(
        &mut h,
        vec![frame("UPLOAD a"), Event::Published(false), Event::Frame(vec![1]), Event::Failure],
    );
    assert!(!acts.contains(&Action::Enqueue("a".to_string())));
    assert_eq!(acts.last(), Some(&Action::Close));
}

#[test]
fn phase_follows_the_handshake() {
    let mut h = ConnectionHandler::new();
    assert_eq!(h.phase(), &Phase::AwaitingCommand);
    h.step(frame("UPLOAD a"));
    assert_eq!(h.phase(), &Phase::CheckingUpload { filename: "a".to_string() });
    h.step(Event::Published(false));
    assert_eq!(h.phase(), &Phase::Uploading { filename: "a".to_string() });
}

#[test]
fn download_chunk_size() {
    assert_eq!(DOWNLOAD_CHUNK, 1572864);
}
