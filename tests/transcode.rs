use video_service::transcode::{transcode_command, Storage, TranscodeWorker, WorkerAction, WorkerEvent};

fn strings(v: &[&str]) -> Vec<String> {
    v.iter().map(|s| s.to_string()).collect()
}

#[test]
fn default_paths() {
    let s = Storage::default_roots();
    assert_eq!(s.staging_path("a.bin"), "./tmp/a.bin");
    assert_eq!(s.published_path("a.bin"), "./dist/a.bin");
}

#[test]
fn custom_roots() {
    let s = Storage { staging_root: "/srv/stage".to_string(), published_root: "/srv/pub".to_string() };
    assert_eq!(s.staging_path("x y.mp4"), "/srv/stage/x y.mp4");
    assert_eq!(s.published_path("x y.mp4"), "/srv/pub/x y.mp4");
}

#[test]
fn transcoder_arguments() {
    assert_eq!(
        transcode_command("in.mp4", "out.mp4"),
        strings(&["-i", "in.mp4", "-r", "30", "-s", "960x540", "out.mp4"])
    );
}

#[test]
fn worker_transcodes_then_removes_staging_copy() {
    let mut w = TranscodeWorker::new(Storage::default_roots());
    assert_eq!(
        w.step(WorkerEvent::Dequeued(Some("a.bin".to_string()))),
        WorkerAction::Run {
            program: "ffmpeg".to_string(),
            args: strings(&["-i", "./tmp/a.bin", "-r", "30", "-s", "960x540", "./dist/a.bin"]),
        }
    );
    assert_eq!(w.step(WorkerEvent::Transcoded(true)), WorkerAction::RemoveStaging("./tmp/a.bin".to_string()));
    assert_eq!(w.step(WorkerEvent::Removed(true)), WorkerAction::AwaitJob);
    assert!(!w.is_stopped());
}

#[test]
fn worker_takes_jobs_in_order() {
    let mut w = TranscodeWorker::new(Storage::default_roots());
    for name in ["one", "two", "three"] {
        match w.step(WorkerEvent::Dequeued(Some(name.to_string()))) {
            WorkerAction::Run { args, .. } => assert_eq!(args[1], format!("./tmp/{}", name)),
            other => panic!("unexpected {:?}", other),
        }
        w.step(WorkerEvent::Transcoded(true));
        w.step(WorkerEvent::Removed(true));
    }
}

#[test]
fn failed_transcode_stops_the_worker_for_good() {
    let mut w = TranscodeWorker::new(Storage::default_roots());
    w.step(WorkerEvent::Dequeued(Some("bad.mp4".to_string())));
    assert_eq!(w.step(WorkerEvent::Transcoded(false)), WorkerAction::Halt);
    assert!(w.is_stopped());
    assert_eq!(w.step(WorkerEvent::Dequeued(Some("next.mp4".to_string()))), WorkerAction::Halt);
}

#[test]
fn failed_removal_stops_the_worker() {
    let mut w = TranscodeWorker::new(Storage::default_roots());
    w.step(WorkerEvent::Dequeued(Some("a".to_string())));
    w.step(WorkerEvent::Transcoded(true));
    assert_eq!(w.step(WorkerEvent::Removed(false)), WorkerAction::Halt);
    assert!(w.is_stopped());
}

#[test]
fn closed_queue_stops_the_worker() {
    let mut w = TranscodeWorker::new(Storage::default_roots());
    assert_eq!(w.step(WorkerEvent::Dequeued(None)), WorkerAction::Halt);
    assert!(w.is_stopped());
}
