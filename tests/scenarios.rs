use bytes::Bytes;
use video_service::client::VideoConnection;
use video_service::server::{Action, ConnectionHandler, Event};
use video_service::transcode::{Storage, TranscodeWorker, WorkerAction, WorkerEvent};

fn pseudo_random(n: usize, seed: u64) -> Vec<u8> {
    let mut x = seed;
    (0..n)
        .map(|_| {
            x ^= x << 13;
            x ^= x >> 7;
            x ^= x << 17;
            (x >> 24) as u8
        })
        .collect()
}

#[test]
fn scenario_upload_ten_mebibytes() {
    let source = pseudo_random(10 * 1024 * 1024, 0x9e3779b97f4a7c15);
    let mut client = VideoConnection::new();
    let mut server = ConnectionHandler::new();

    let command = client.start_uploading("a.bin");
    let acts = server.step(Event::Frame(command));
    assert_eq!(acts, vec![Action::CheckPublished("a.bin".to_string())]);
    let acts = server.step(Event::Published(false));
    let reply = match &acts[0] {
        Action::Send(b) => b.clone(),
        other => panic!("unexpected {:?}", other),
    };
    assert_eq!(reply, b"OK ".to_vec());
    assert_eq!(acts[1], Action::CreateStaging("a.bin".to_string()));
    assert_eq!(VideoConnection::get_response(Some(&reply[..])), Ok(()));

    let mut staged: Vec<u8> = Vec::new();
    let mut deliver = |frame: Bytes, server: &mut ConnectionHandler, staged: &mut Vec<u8>| {
        for a in server.step(Event::Frame(frame.to_vec())) {
            match a {
                Action::Append(b) => staged.extend_from_slice(&b),
                other => panic!("unexpected {:?}", other),
            }
        }
    };
    for piece in source.chunks(700_001) {
        if let Some(frame) = client.buffered_send(Bytes::copy_from_slice(piece)) {
            deliver(frame, &mut server, &mut staged);
        }
    }
    let last = client.flush();
    deliver(last, &mut server, &mut staged);
    let acts = server.step(Event::EndOfStream);
    assert_eq!(acts, vec![Action::Enqueue("a.bin".to_string()), Action::Close]);
    assert_eq!(staged.len(), source.len());
    assert!(staged == source);

    let mut worker = TranscodeWorker::new(Storage::default_roots());
    match worker.step(WorkerEvent::Dequeued(Some("a.bin".to_string()))) {
        WorkerAction::Run { program, args } => {
            assert_eq!(program, "ffmpeg");
            assert_eq!(args, vec!["-i", "./tmp/a.bin", "-r", "30", "-s", "960x540", "./dist/a.bin"]);
        }
        other => panic!("unexpected {:?}", other),
    }
    assert_eq!(
        worker.step(WorkerEvent::Transcoded(true)),
        WorkerAction::RemoveStaging("./tmp/a.bin".to_string())
    );
    assert_eq!(worker.step(WorkerEvent::Removed(true)), WorkerAction::AwaitJob);
}

#[test]
fn scenario_get_missing_file() {
    let client = VideoConnection::new();
    let mut server = ConnectionHandler::new();
    let mut acts = server.step(Event::Frame(client.start_recieving("missing.mp4")));
    assert_eq!(acts, vec![Action::CheckPublished("missing.mp4".to_string())]);
    acts = server.step(Event::Published(false));
    let frames: Vec<Vec<u8>> = acts
        .iter()
        .filter_map(|a| match a {
            Action::Send(b) => Some(b.clone()),
            _ => None,
        })
        .collect();
    assert_eq!(frames, vec![b"ERROR file does not exist".to_vec()]);
    assert_eq!(acts.last(), Some(&Action::Close));
    assert!(server.step(Event::EndOfStream).is_empty());
    let e = VideoConnection::get_response(Some(&frames[0][..])).unwrap_err();
    assert_eq!(e.message(), "file does not exist");
}
