//! Serving a stored object back: the whole body, with the one content type
//! that the store holds.

use vstd::prelude::*;

verus! {

/// What fetching an object from the store gave.
pub enum FetchOutcome {
    /// The whole body of the object.
    Fetched(Vec<u8>),
    /// The store did not answer the request with the object (missing key or
    /// transport failure).
    RequestFailed,
    /// The object was found but reading its body failed.
    BodyFailed,
}

/// Why an object could not be served. Both are server errors to the caller.
#[derive(Clone, Copy, Debug, PartialEq, Eq, Structural)]
pub enum FetchError {
    Request,
    Body,
}

/// An object ready to be sent: its content type and its bytes.
#[derive(Clone, Debug, PartialEq, Eq)]
pub struct Playback {
    pub content_type: String,
    pub body: Vec<u8>,
}

impl View for Playback {
    type V = (Seq<char>, Seq<u8>);

    open spec fn view(&self) -> (Seq<char>, Seq<u8>) {
        (self.content_type@, self.body@)
    }
}

/// Content type of every stored object.
pub open spec fn video_content_type() -> Seq<char> {
    "video/mp4"@
}

/// What serving answers for `outcome`: the fetched bytes under the video
/// content type, or the error.
pub open spec fn served(outcome: FetchOutcome) -> Result<(Seq<char>, Seq<u8>), FetchError> {
    match outcome {
        FetchOutcome::Fetched(body) => Ok((video_content_type(), body@)),
        FetchOutcome::RequestFailed => Err(FetchError::Request),
        FetchOutcome::BodyFailed => Err(FetchError::Body),
    }
}

/// Turns the result of fetching an object into what is sent back.
pub fn serve_video(outcome: FetchOutcome) -> (r: Result<Playback, FetchError>)
    ensures
        match r {
            Ok(p) => served(outcome) == Ok::<_, FetchError>(p@),
            Err(e) => served(outcome) == Err::<(Seq<char>, Seq<u8>), _>(e),
        },
{
    match outcome {
        FetchOutcome::Fetched(body) => Ok(
            Playback { content_type: String::from_str("video/mp4"), body },
        ),
        FetchOutcome::RequestFailed => Err(FetchError::Request),
        FetchOutcome::BodyFailed => Err(FetchError::Body),
    }
}

/// Fetching the same unchanged object twice serves byte-identical content
/// under the same content type: nothing is kept or derived between calls.
pub proof fn lemma_serving_is_idempotent(first: FetchOutcome, second: FetchOutcome)
    requires
        first is Fetched,
        second is Fetched,
        first->Fetched_0@ == second->Fetched_0@,
    ensures
        served(first) == served(second),
        served(first) == Ok::<_, FetchError>((video_content_type(), first->Fetched_0@)),
{
}

} // verus!
