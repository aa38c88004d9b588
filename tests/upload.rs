use vidhost::planner::{Chunk, SizeError, CHUNK_SIZE, MAX_CHUNKS};
use vidhost::upload::{upload_video, Action, CompletedPart, Event, UploadConfig, UploadError, UploadSession};

const MIB: u64 = 1024 * 1024;

fn config() -> UploadConfig {
    UploadConfig { bucket: "videos".to_string(), part_size: CHUNK_SIZE, max_parts: MAX_CHUNKS }
}

/// Runs a session to its end, answering each action with `answer`, and
/// returns every action in the order it was asked for.
fn drive(size: u64, mut answer: impl FnMut(&Action) -> Event) -> Vec<Action> {
    let (mut session, mut action) =
        UploadSession::start(&config(), "clip.mp4".to_string(), "k1.mp4".to_string(), size, 7);
    let mut actions = Vec::new();
    while !session.is_finished() {
        let event = answer(&action);
        actions.push(action);
        (session, action) = session.advance(event);
    }
    actions.push(action);
    actions
}

fn store_that_works(action: &Action) -> Event {
    match action {
        Action::InsertVideo { .. } => Event::VideoInserted(42),
        Action::LinkVideo { .. } => Event::VideoLinked,
        Action::BeginUpload { .. } => Event::UploadBegun("up-1".to_string()),
        Action::UploadPart { chunk, .. } => Event::PartUploaded(format!("tag{}", chunk.part_number)),
        Action::AbortUpload { .. } => Event::UploadAborted,
        Action::CompleteUpload { .. } => Event::UploadCompleted,
        Action::Finish(_) => Event::Failed,
    }
}

fn part(bucket: &str, n: u64, offset: u64, length: u64) -> Action {
    Action::UploadPart {
        bucket: bucket.to_string(),
        key: "k1.mp4".to_string(),
        upload_id: "up-1".to_string(),
        chunk: Chunk { part_number: n, offset, length },
    }
}

#[test]
fn upload_runs_the_protocol_in_order() {
    let actions = drive(12 * MIB, store_that_works);
    assert_eq!(
        actions,
        vec![
            Action::InsertVideo { name: "clip.mp4".to_string(), key: "k1.mp4".to_string() },
            Action::LinkVideo { group_id: 7, video_id: 42 },
            Action::BeginUpload { bucket: "videos".to_string(), key: "k1.mp4".to_string() },
            part("videos", 1, 0, 5 * MIB),
            part("videos", 2, 5 * MIB, 5 * MIB),
            part("videos", 3, 10 * MIB, 2 * MIB),
            Action::CompleteUpload {
                bucket: "videos".to_string(),
                key: "k1.mp4".to_string(),
                upload_id: "up-1".to_string(),
                parts: vec![
                    CompletedPart { part_number: 1, e_tag: "tag1".to_string() },
                    CompletedPart { part_number: 2, e_tag: "tag2".to_string() },
                    CompletedPart { part_number: 3, e_tag: "tag3".to_string() },
                ],
            },
            Action::Finish(Ok("k1.mp4".to_string())),
        ]
    );
}

#[test]
fn parts_are_requested_in_ascending_order_and_completed_in_that_order() {
    let mut requested = Vec::new();
    let actions = drive(23 * MIB + 3, |a| {
        if let Action::UploadPart { chunk, .. } = a {
            requested.push(chunk.part_number);
        }
        store_that_works(a)
    });
    assert_eq!(requested, vec![1, 2, 3, 4, 5]);
    let manifest: Vec<u64> = actions
        .iter()
        .find_map(|a| match a {
            Action::CompleteUpload { parts, .. } => Some(parts.iter().map(|p| p.part_number).collect()),
            _ => None,
        })
        .unwrap();
    assert_eq!(manifest, requested);
}

#[test]
fn insert_failure_never_begins_an_upload() {
    for size in [1, 5 * MIB, 12 * MIB, 100 * MIB] {
        let actions = drive(size, |a| match a {
            Action::InsertVideo { .. } => Event::Failed,
            other => store_that_works(other),
        });
        assert!(!actions.iter().any(|a| matches!(a, Action::BeginUpload { .. })));
        assert_eq!(actions.last(), Some(&Action::Finish(Err(UploadError::MetadataInsert))));
        assert_eq!(actions.len(), 2);
    }
}

#[test]
fn link_failure_never_begins_an_upload() {
    let actions = drive(12 * MIB, |a| match a {
        Action::LinkVideo { .. } => Event::Failed,
        other => store_that_works(other),
    });
    assert!(!actions.iter().any(|a| matches!(a, Action::BeginUpload { .. })));
    assert_eq!(actions.last(), Some(&Action::Finish(Err(UploadError::GroupLink))));
}

#[test]
fn part_two_of_three_failing_aborts_and_never_completes() {
    let actions = drive(12 * MIB, |a| match a {
        Action::UploadPart { chunk, .. } if chunk.part_number == 2 => Event::Failed,
        other => store_that_works(other),
    });
    assert!(!actions.iter().any(|a| matches!(a, Action::CompleteUpload { .. })));
    let n = actions.len();
    assert_eq!(actions[n - 3], part("videos", 2, 5 * MIB, 5 * MIB));
    assert_eq!(
        actions[n - 2],
        Action::AbortUpload {
            bucket: "videos".to_string(),
            key: "k1.mp4".to_string(),
            upload_id: "up-1".to_string(),
        }
    );
    assert_eq!(actions[n - 1], Action::Finish(Err(UploadError::PartUpload(2))));
    assert_eq!(UploadError::PartUpload(2).status_code(), 500);
}

#[test]
fn failed_abort_still_reports_the_part_failure() {
    let actions = drive(12 * MIB, |a| match a {
        Action::UploadPart { chunk, .. } if chunk.part_number == 3 => Event::Failed,
        Action::AbortUpload { .. } => Event::Failed,
        other => store_that_works(other),
    });
    assert_eq!(actions.last(), Some(&Action::Finish(Err(UploadError::PartUpload(3)))));
}

#[test]
fn begin_failure_is_reported() {
    let actions = drive(12 * MIB, |a| match a {
        Action::BeginUpload { .. } => Event::Failed,
        other => store_that_works(other),
    });
    assert!(!actions.iter().any(|a| matches!(a, Action::UploadPart { .. })));
    assert_eq!(actions.last(), Some(&Action::Finish(Err(UploadError::BeginUpload))));
}

#[test]
fn complete_failure_is_reported() {
    let actions = drive(1, |a| match a {
        Action::CompleteUpload { .. } => Event::Failed,
        other => store_that_works(other),
    });
    assert_eq!(actions.last(), Some(&Action::Finish(Err(UploadError::CompleteUpload))));
    assert_eq!(UploadError::CompleteUpload.status_code(), 500);
}

#[test]
fn unexpected_answer_counts_as_failure() {
    let actions = drive(12 * MIB, |a| match a {
        Action::InsertVideo { .. } => Event::VideoLinked,
        other => store_that_works(other),
    });
    assert_eq!(actions.last(), Some(&Action::Finish(Err(UploadError::MetadataInsert))));
}

#[test]
fn finished_session_repeats_its_outcome() {
    let (session, _) = UploadSession::start(&config(), "a".to_string(), "k.mp4".to_string(), 0, 1);
    let (session, action) = session.advance(Event::VideoLinked);
    assert!(session.is_finished());
    assert_eq!(action, Action::Finish(Err(UploadError::Validation(SizeError::Empty))));
}

#[test]
fn empty_file_is_rejected_before_any_call() {
    let (session, action) =
        UploadSession::start(&config(), "a".to_string(), "k.mp4".to_string(), 0, 1);
    assert!(session.is_finished());
    assert_eq!(action, Action::Finish(Err(UploadError::Validation(SizeError::Empty))));
    assert_eq!(UploadError::Validation(SizeError::Empty).status_code(), 400);
}

#[test]
fn too_many_parts_is_rejected_before_any_call() {
    let (session, action) = UploadSession::start(
        &config(),
        "a".to_string(),
        "k.mp4".to_string(),
        CHUNK_SIZE * MAX_CHUNKS + 1,
        1,
    );
    assert!(session.is_finished());
    assert_eq!(action, Action::Finish(Err(UploadError::Validation(SizeError::TooManyParts))));
    assert_eq!(UploadError::Validation(SizeError::TooManyParts).status_code(), 400);
}

#[test]
fn upload_video_uses_a_fresh_key_with_the_extension() {
    let (session, action) = upload_video(&config(), "clip".to_string(), "mp4", 10, 3);
    let key = session.key().clone();
    assert_eq!(key.len(), 14);
    assert!(key.ends_with(".mp4"));
    assert_eq!(action, Action::InsertVideo { name: "clip".to_string(), key: key.clone() });
    let (other, _) = upload_video(&config(), "clip".to_string(), "mp4", 10, 3);
    assert_ne!(other.key(), &key);
}
