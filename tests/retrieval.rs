use vidhost::retrieval::{serve_video, FetchError, FetchOutcome};

#[test]
fn fetched_object_is_served_as_video() {
    let p = serve_video(FetchOutcome::Fetched(vec![1, 2, 3])).unwrap();
    assert_eq!(p.content_type, "video/mp4");
    assert_eq!(p.body, vec![1, 2, 3]);
}

#[test]
fn serving_twice_gives_identical_content() {
    let bytes: Vec<u8> = (0..=255).collect();
    let first = serve_video(FetchOutcome::Fetched(bytes.clone())).unwrap();
    let second = serve_video(FetchOutcome::Fetched(bytes.clone())).unwrap();
    assert_eq!(first, second);
    assert_eq!(first.body, bytes);
}

#[test]
fn empty_object_is_served_empty() {
    let p = serve_video(FetchOutcome::Fetched(Vec::new())).unwrap();
    assert!(p.body.is_empty());
}

#[test]
fn fetch_failures_are_reported() {
    assert_eq!(serve_video(FetchOutcome::RequestFailed), Err(FetchError::Request));
    assert_eq!(serve_video(FetchOutcome::BodyFailed), Err(FetchError::Body));
}
