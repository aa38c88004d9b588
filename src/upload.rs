//! The upload session: one object goes to the object store as a multipart
//! upload and gets a metadata record linked to its group.
//!
//! The session decides and the caller acts. Each step hands the caller an
//! [`Action`], one call to the metadata store or the object store; the caller
//! makes the call and hands back its answer as an [`Event`]. The order of the
//! protocol is: validate the size, insert the video record, link it to the
//! group, begin the multipart upload, upload the parts one at a time in
//! ascending order, complete the upload with the parts in that order.
//!
//! The metadata record is written before the object is durable, so a failure
//! after that point leaves a record without an object. When a part upload
//! fails, the session aborts the multipart upload before it reports the
//! failure, so that no unfinished upload is left open in the object store.

use vstd::prelude::*;
use crate::keys::{generate_random_key, is_random_id, key_of};
use crate::planner::{Chunk, SizeError, is_plan, plan_chunks, plan_error};

verus! {

/// What the coordinator needs to know of its environment.
pub struct UploadConfig {
    /// Bucket that objects are stored in.
    pub bucket: String,
    /// Length of every part but the last.
    pub part_size: u64,
    /// Largest number of parts of one upload.
    pub max_parts: u64,
}

/// The acknowledgment of one uploaded part: its number and integrity tag.
#[derive(Clone, Debug, PartialEq, Eq)]
pub struct CompletedPart {
    pub part_number: u64,
    pub e_tag: String,
}

/// Why an upload failed.
#[derive(Clone, Copy, Debug, PartialEq, Eq, Structural)]
pub enum UploadError {
    /// The size cannot be uploaded; nothing was called.
    Validation(SizeError),
    /// Inserting the video record failed.
    MetadataInsert,
    /// Linking the video record to its group failed.
    GroupLink,
    /// Beginning the multipart upload failed.
    BeginUpload,
    /// Uploading the part with this number failed.
    PartUpload(u64),
    /// Completing the multipart upload failed.
    CompleteUpload,
}

impl UploadError {
    /// HTTP status to report: 400 for a request that cannot be served, 500
    /// for a failure of the stores.
    pub fn status_code(&self) -> (r: u16)
        ensures
            r == (if *self is Validation { 400u16 } else { 500u16 }),
    {
        match self {
            UploadError::Validation(_) => 400,
            _ => 500,
        }
    }
}

/// The answer to the last action.
#[derive(Clone, Debug, PartialEq, Eq)]
pub enum Event {
    /// The video record was inserted with this id.
    VideoInserted(i64),
    /// The video record was linked to its group.
    VideoLinked,
    /// The multipart upload began with this upload id.
    UploadBegun(String),
    /// The part was stored; its integrity tag.
    PartUploaded(String),
    /// The multipart upload was aborted.
    UploadAborted,
    /// The multipart upload was completed.
    UploadCompleted,
    /// The call failed.
    Failed,
}

/// The next thing the caller is to do.
#[derive(Debug, PartialEq, Eq)]
pub enum Action {
    /// Insert a video record named `name` that refers to `key`.
    InsertVideo { name: String, key: String },
    /// Link video `video_id` to group `group_id`.
    LinkVideo { group_id: i64, video_id: i64 },
    /// Begin a multipart upload of `key` into `bucket`.
    BeginUpload { bucket: String, key: String },
    /// Upload the byte range of `chunk` as part `chunk.part_number`.
    UploadPart { bucket: String, key: String, upload_id: String, chunk: Chunk },
    /// Abort the multipart upload.
    AbortUpload { bucket: String, key: String, upload_id: String },
    /// Complete the multipart upload with `parts`, in this order.
    CompleteUpload { bucket: String, key: String, upload_id: String, parts: Vec<CompletedPart> },
    /// The upload is over: the key of the stored object, or the failure.
    Finish(Result<String, UploadError>),
}

/// [`Action`] with its list of parts as a sequence.
pub enum ActionView {
    InsertVideo { name: String, key: String },
    LinkVideo { group_id: i64, video_id: i64 },
    BeginUpload { bucket: String, key: String },
    UploadPart { bucket: String, key: String, upload_id: String, chunk: Chunk },
    AbortUpload { bucket: String, key: String, upload_id: String },
    CompleteUpload { bucket: String, key: String, upload_id: String, parts: Seq<CompletedPart> },
    Finish(Result<String, UploadError>),
}

impl View for Action {
    type V = ActionView;

    open spec fn view(&self) -> ActionView {
        match self {
            Action::InsertVideo { name, key } => ActionView::InsertVideo { name: *name, key: *key },
            Action::LinkVideo { group_id, video_id } => ActionView::LinkVideo {
                group_id: *group_id,
                video_id: *video_id,
            },
            Action::BeginUpload { bucket, key } => ActionView::BeginUpload {
                bucket: *bucket,
                key: *key,
            },
            Action::UploadPart { bucket, key, upload_id, chunk } => ActionView::UploadPart {
                bucket: *bucket,
                key: *key,
                upload_id: *upload_id,
                chunk: *chunk,
            },
            Action::AbortUpload { bucket, key, upload_id } => ActionView::AbortUpload {
                bucket: *bucket,
                key: *key,
                upload_id: *upload_id,
            },
            Action::CompleteUpload { bucket, key, upload_id, parts } => ActionView::CompleteUpload {
                bucket: *bucket,
                key: *key,
                upload_id: *upload_id,
                parts: parts@,
            },
            Action::Finish(r) => ActionView::Finish(*r),
        }
    }
}

/// Where a session stands.
pub enum Phase {
    /// Waiting for the video record to be inserted.
    InsertingVideo,
    /// Waiting for the video record to be linked to its group.
    LinkingVideo,
    /// Waiting for the multipart upload to begin.
    Beginning,
    /// Waiting for the part at 0-based `index` of the plan to be stored.
    Uploading { upload_id: String, index: usize },
    /// Waiting for the abort that follows the failure of part `failed_part`.
    Aborting { failed_part: u64 },
    /// Waiting for the multipart upload to be completed.
    Completing,
    /// Over, with this outcome.
    Finished(Result<String, UploadError>),
}

/// The state of one upload.
pub struct UploadSession {
    bucket: String,
    key: String,
    name: String,
    group_id: i64,
    plan: Vec<Chunk>,
    parts: Vec<CompletedPart>,
    phase: Phase,
}

/// [`UploadSession`] with its vectors as sequences.
pub struct SessionView {
    pub bucket: String,
    pub key: String,
    pub name: String,
    pub group_id: i64,
    pub plan: Seq<Chunk>,
    pub parts: Seq<CompletedPart>,
    pub phase: Phase,
}

impl UploadSession {
    #[verifier::type_invariant]
    spec fn well_formed(self) -> bool {
        self@.wf()
    }
}

impl View for UploadSession {
    type V = SessionView;

    closed spec fn view(&self) -> SessionView {
        SessionView {
            bucket: self.bucket,
            key: self.key,
            name: self.name,
            group_id: self.group_id,
            plan: self.plan@,
            parts: self.parts@,
            phase: self.phase,
        }
    }
}

/// `parts` acknowledges parts `1, 2, ..., parts.len()`, in this order.
pub open spec fn numbered_in_order(parts: Seq<CompletedPart>) -> bool {
    forall|k: int| 0 <= k < parts.len() ==> (#[trigger] parts[k]).part_number == k + 1
}

impl SessionView {
    /// The plan numbers its parts from 1 up and has at least one part unless
    /// the session is over, and the parts acknowledged so far are the first
    /// ones of the plan, in order.
    pub open spec fn wf(self) -> bool {
        &&& self.plan.len() <= usize::MAX
        &&& (self.plan.len() >= 1 || self.is_finished())
        &&& forall|k: int| 0 <= k < self.plan.len() ==> (#[trigger] self.plan[k]).part_number == k + 1
        &&& numbered_in_order(self.parts)
        &&& match self.phase {
            Phase::Uploading { index, .. } => index < self.plan.len() && self.parts.len() == index,
            _ => self.parts.len() == 0,
        }
    }

    pub open spec fn is_finished(self) -> bool {
        match self.phase {
            Phase::Finished(_) => true,
            _ => false,
        }
    }

    /// The session after a failure, and the action that reports it.
    pub open spec fn fail(self, e: UploadError) -> (SessionView, ActionView) {
        (
            SessionView { phase: Phase::Finished(Err(e)), ..self },
            ActionView::Finish(Err(e)),
        )
    }

    /// The session after `self` receives `event`, and the next action.
    pub open spec fn step(self, event: Event) -> (SessionView, ActionView) {
        match self.phase {
            Phase::InsertingVideo => match event {
                Event::VideoInserted(video_id) => (
                    SessionView { phase: Phase::LinkingVideo, ..self },
                    ActionView::LinkVideo { group_id: self.group_id, video_id },
                ),
                _ => self.fail(UploadError::MetadataInsert),
            },
            Phase::LinkingVideo => match event {
                Event::VideoLinked => (
                    SessionView { phase: Phase::Beginning, ..self },
                    ActionView::BeginUpload { bucket: self.bucket, key: self.key },
                ),
                _ => self.fail(UploadError::GroupLink),
            },
            Phase::Beginning => match event {
                Event::UploadBegun(upload_id) => (
                    SessionView { phase: Phase::Uploading { upload_id, index: 0 }, ..self },
                    ActionView::UploadPart {
                        bucket: self.bucket,
                        key: self.key,
                        upload_id,
                        chunk: self.plan[0],
                    },
                ),
                _ => self.fail(UploadError::BeginUpload),
            },
            Phase::Uploading { upload_id, index } => match event {
                Event::PartUploaded(e_tag) => {
                    let parts = self.parts.push(
                        CompletedPart { part_number: self.plan[index as int].part_number, e_tag },
                    );
                    if index < self.plan.len() - 1 {
                        (
                            SessionView {
                                parts,
                                phase: Phase::Uploading { upload_id, index: (index + 1) as usize },
                                ..self
                            },
                            ActionView::UploadPart {
                                bucket: self.bucket,
                                key: self.key,
                                upload_id,
                                chunk: self.plan[index + 1],
                            },
                        )
                    } else {
                        (
                            SessionView { parts: seq![], phase: Phase::Completing, ..self },
                            ActionView::CompleteUpload {
                                bucket: self.bucket,
                                key: self.key,
                                upload_id,
                                parts,
                            },
                        )
                    }
                },
                _ => (
                    SessionView {
                        parts: seq![],
                        phase: Phase::Aborting { failed_part: self.plan[index as int].part_number },
                        ..self
                    },
                    ActionView::AbortUpload { bucket: self.bucket, key: self.key, upload_id },
                ),
            },
            Phase::Aborting { failed_part } => self.fail(UploadError::PartUpload(failed_part)),
            Phase::Completing => match event {
                Event::UploadCompleted => (
                    SessionView { phase: Phase::Finished(Ok(self.key)), ..self },
                    ActionView::Finish(Ok(self.key)),
                ),
                _ => self.fail(UploadError::CompleteUpload),
            },
            Phase::Finished(r) => (self, ActionView::Finish(r)),
        }
    }
}

/// `(s, a)` is how an upload of `total_size` bytes starts: a size that cannot
/// be planned finishes the session at once with a validation error and no
/// call; any other size plans the parts and asks for the video record first.
pub open spec fn is_start(
    config: UploadConfig,
    name: String,
    key: String,
    total_size: u64,
    group_id: i64,
    s: SessionView,
    a: ActionView,
) -> bool {
    &&& s.bucket == config.bucket
    &&& s.key == key
    &&& s.name == name
    &&& s.group_id == group_id
    &&& match plan_error(total_size as nat, config.part_size as nat, config.max_parts as nat) {
        Some(e) => s.phase == Phase::Finished(Err(UploadError::Validation(e))) && a
            == ActionView::Finish(Err(UploadError::Validation(e))),
        None => {
            &&& is_plan(s.plan, total_size as nat, config.part_size as nat)
            &&& s.parts.len() == 0
            &&& s.phase == Phase::InsertingVideo
            &&& a == ActionView::InsertVideo { name, key }
        },
    }
}

impl UploadSession {
    /// Starts the upload of `total_size` bytes under object key `key`, as
    /// video `name` of group `group_id`.
    pub fn start(
        config: &UploadConfig,
        name: String,
        key: String,
        total_size: u64,
        group_id: i64,
    ) -> (r: (UploadSession, Action))
        requires
            config.part_size > 0,
        ensures
            is_start(*config, name, key, total_size, group_id, r.0@, r.1@),
            r.0@.wf(),
    {
        match plan_chunks(total_size, config.part_size, config.max_parts) {
            Err(e) => {
                let session = UploadSession {
                    bucket: config.bucket.clone(),
                    key,
                    name,
                    group_id,
                    plan: Vec::new(),
                    parts: Vec::new(),
                    phase: Phase::Finished(Err(UploadError::Validation(e))),
                };
                (session, Action::Finish(Err(UploadError::Validation(e))))
            },
            Ok(plan) => {
                // Reading the length records that it fits in a usize.
                let plan_length = plan.len();
                proof {
                    assert forall|k: int| 0 <= k < plan@.len() implies (
                    #[trigger] plan@[k]).part_number == k + 1 by {
                        assert(crate::planner::is_chunk_of(
                            plan@[k],
                            total_size as nat,
                            config.part_size as nat,
                            k as nat,
                        ));
                    }
                    assert(plan@.len() >= 1) by {
                        crate::planner::lemma_plan_tiles(
                            total_size as nat,
                            config.part_size as nat,
                            plan@,
                        );
                    }
                }
                let action = Action::InsertVideo { name: name.clone(), key: key.clone() };
                let session = UploadSession {
                    bucket: config.bucket.clone(),
                    key,
                    name,
                    group_id,
                    plan,
                    parts: Vec::new(),
                    phase: Phase::InsertingVideo,
                };
                (session, action)
            },
        }
    }

    /// Whether the upload is over.
    pub fn is_finished(&self) -> (r: bool)
        ensures
            r == self@.is_finished(),
    {
        match self.phase {
            Phase::Finished(_) => true,
            _ => false,
        }
    }

    /// The object key of this upload.
    pub fn key(&self) -> (r: &String)
        ensures
            *r == self@.key,
    {
        &self.key
    }

    /// Takes the answer to the last action; returns the session that follows
    /// and the next action. A finished session stays as it is and repeats its
    /// outcome.
    pub fn advance(self, event: Event) -> (r: (UploadSession, Action))
        ensures
            (r.0@, r.1@) == self@.step(event),
            r.0@.wf(),
    {
        proof {
            use_type_invariant(&self);
            lemma_step_keeps_wf(self@, event);
        }
        let UploadSession { bucket, key, name, group_id, plan, mut parts, phase } = self;
        let (phase, action) = match phase {
            Phase::InsertingVideo => match event {
                Event::VideoInserted(video_id) => (
                    Phase::LinkingVideo,
                    Action::LinkVideo { group_id, video_id },
                ),
                _ => failure(UploadError::MetadataInsert),
            },
            Phase::LinkingVideo => match event {
                Event::VideoLinked => (
                    Phase::Beginning,
                    Action::BeginUpload { bucket: bucket.clone(), key: key.clone() },
                ),
                _ => failure(UploadError::GroupLink),
            },
            Phase::Beginning => match event {
                Event::UploadBegun(upload_id) => {
                    let action = Action::UploadPart {
                        bucket: bucket.clone(),
                        key: key.clone(),
                        upload_id: upload_id.clone(),
                        chunk: plan[0],
                    };
                    (Phase::Uploading { upload_id, index: 0 }, action)
                },
                _ => failure(UploadError::BeginUpload),
            },
            Phase::Uploading { upload_id, index } => match event {
                Event::PartUploaded(e_tag) => {
                    parts.push(CompletedPart { part_number: plan[index].part_number, e_tag });
                    if index < plan.len() - 1 {
                        let action = Action::UploadPart {
                            bucket: bucket.clone(),
                            key: key.clone(),
                            upload_id: upload_id.clone(),
                            chunk: plan[index + 1],
                        };
                        (Phase::Uploading { upload_id, index: index + 1 }, action)
                    } else {
                        let mut manifest: Vec<CompletedPart> = Vec::new();
                        std::mem::swap(&mut manifest, &mut parts);
                        (
                            Phase::Completing,
                            Action::CompleteUpload {
                                bucket: bucket.clone(),
                                key: key.clone(),
                                upload_id,
                                parts: manifest,
                            },
                        )
                    }
                },
                _ => {
                    let failed_part = plan[index].part_number;
                    parts = Vec::new();
                    (
                        Phase::Aborting { failed_part },
                        Action::AbortUpload { bucket: bucket.clone(), key: key.clone(), upload_id },
                    )
                },
            },
            Phase::Aborting { failed_part } => failure(UploadError::PartUpload(failed_part)),
            Phase::Completing => match event {
                Event::UploadCompleted => (
                    Phase::Finished(Ok(key.clone())),
                    Action::Finish(Ok(key.clone())),
                ),
                _ => failure(UploadError::CompleteUpload),
            },
            Phase::Finished(outcome) => {
                let action = Action::Finish(copy_outcome(&outcome));
                (Phase::Finished(outcome), action)
            },
        };
        (UploadSession { bucket, key, name, group_id, plan, parts, phase }, action)
    }
}

/// Starts the upload of file `file_name`, `total_size` bytes long, for
/// group `group_id`, under a fresh random key with extension `extension`.
pub fn upload_video(
    config: &UploadConfig,
    file_name: String,
    extension: &str,
    total_size: u64,
    group_id: i64,
) -> (r: (UploadSession, Action))
    requires
        config.part_size > 0,
    ensures
        exists|id: Seq<char>| is_random_id(id) && r.0@.key@ == key_of(id, extension@),
        is_start(*config, file_name, r.0@.key, total_size, group_id, r.0@, r.1@),
        r.0@.wf(),
{
    let key = generate_random_key(extension);
    UploadSession::start(config, file_name, key, total_size, group_id)
}

fn failure(e: UploadError) -> (r: (Phase, Action))
    ensures
        r.0 == Phase::Finished(Err(e)),
        r.1@ == ActionView::Finish(Err(e)),
{
    (Phase::Finished(Err(e)), Action::Finish(Err(e)))
}

fn copy_outcome(outcome: &Result<String, UploadError>) -> (r: Result<String, UploadError>)
    ensures
        r == *outcome,
{
    match outcome {
        Ok(key) => Ok(key.clone()),
        Err(e) => Err(*e),
    }
}

/// The actions that session `s` issues when it receives `events` one after
/// the other, up to the end of the upload.
pub open spec fn run(s: SessionView, events: Seq<Event>) -> Seq<ActionView>
    decreases events.len(),
{
    if events.len() == 0 || s.is_finished() {
        seq![]
    } else {
        let (next, a) = s.step(events[0]);
        seq![a] + run(next, events.drop_first())
    }
}

/// Number of part uploads among `actions`.
pub open spec fn uploads_in(actions: Seq<ActionView>) -> nat
    decreases actions.len(),
{
    if actions.len() == 0 {
        0
    } else {
        (if actions[0] is UploadPart { 1nat } else { 0nat }) + uploads_in(actions.drop_first())
    }
}

/// The part number that `a` uploads, if it uploads a part.
pub open spec fn uploaded_part(a: ActionView) -> int {
    match a {
        ActionView::UploadPart { chunk, .. } => chunk.part_number as int,
        _ => 0,
    }
}

/// The list of parts that `a` completes an upload with, if it completes one.
pub open spec fn manifest(a: ActionView) -> Seq<CompletedPart> {
    match a {
        ActionView::CompleteUpload { parts, .. } => parts,
        _ => seq![],
    }
}

/// Number of parts that `s` has asked to upload so far.
pub open spec fn requested(s: SessionView) -> nat {
    match s.phase {
        Phase::Uploading { index, .. } => (index + 1) as nat,
        _ => 0,
    }
}

/// `s` has stopped uploading parts.
pub open spec fn past_uploads(s: SessionView) -> bool {
    s.phase is Aborting || s.phase is Completing || s.phase is Finished
}

/// Every step keeps a session well formed.
pub proof fn lemma_step_keeps_wf(s: SessionView, event: Event)
    requires
        s.wf(),
    ensures
        s.step(event).0.wf(),
{
    let next = s.step(event).0;
    if let Phase::Uploading { index, .. } = s.phase {
        if event is PartUploaded {
            assert(s.plan[index as int].part_number == index + 1);
            if index + 1 < s.plan.len() {
                assert forall|k: int| 0 <= k < next.parts.len() implies (
                #[trigger] next.parts[k]).part_number == k + 1 by {
                    if k < s.parts.len() {
                        assert(next.parts[k] == s.parts[k]);
                    }
                }
            }
        }
    }
}

proof fn lemma_past_uploads_run(s: SessionView, events: Seq<Event>)
    requires
        past_uploads(s),
    ensures
        forall|i: int|
            0 <= i < run(s, events).len() ==> !(#[trigger] run(s, events)[i] is UploadPart) && !(
            run(s, events)[i] is CompleteUpload),
        uploads_in(run(s, events)) == 0,
{
    if events.len() == 0 || s.is_finished() {
        assert(run(s, events).len() == 0);
    } else {
        let (next, a) = s.step(events[0]);
        assert(next.is_finished());
        assert(run(next, events.drop_first()) == Seq::<ActionView>::empty());
        assert(run(s, events) =~= seq![a]);
        assert(seq![a].drop_first() =~= Seq::<ActionView>::empty());
        assert(uploads_in(seq![a].drop_first()) == 0);
    }
}

proof fn lemma_uploads_in_prefix(a: ActionView, rest: Seq<ActionView>, i: int)
    requires
        0 < i <= rest.len() + 1,
    ensures
        (seq![a] + rest).take(i) == seq![a] + rest.take(i - 1),
        uploads_in(seq![a] + rest.take(i - 1)) == (if a is UploadPart { 1nat } else { 0nat })
            + uploads_in(rest.take(i - 1)),
{
    assert((seq![a] + rest).take(i) =~= seq![a] + rest.take(i - 1));
    assert((seq![a] + rest.take(i - 1)).drop_first() =~= rest.take(i - 1));
}

proof fn lemma_run_order(s: SessionView, events: Seq<Event>)
    requires
        s.wf(),
    ensures
        forall|i: int|
            0 <= i < run(s, events).len() && (#[trigger] run(s, events)[i]) is UploadPart
                ==> uploaded_part(run(s, events)[i]) == requested(s) + uploads_in(
                run(s, events).take(i),
            ) + 1,
        forall|i: int|
            0 <= i < run(s, events).len() && (#[trigger] run(s, events)[i]) is CompleteUpload
                ==> {
                let parts = manifest(run(s, events)[i]);
                &&& numbered_in_order(parts)
                &&& parts.len() == s.plan.len()
                &&& parts.len() == requested(s) + uploads_in(run(s, events).take(i))
            },
    decreases events.len(),
{
    if events.len() == 0 || s.is_finished() {
    } else {
        let e = events[0];
        let (next, a) = s.step(e);
        let rest = run(next, events.drop_first());
        let acts = run(s, events);
        assert(acts == seq![a] + rest);
        lemma_step_keeps_wf(s, e);
        lemma_run_order(next, events.drop_first());
        assert(next.plan == s.plan);
        if past_uploads(next) {
            lemma_past_uploads_run(next, events.drop_first());
        } else {
            assert(requested(next) == requested(s) + (if a is UploadPart { 1nat } else { 0nat }));
        }
        if let ActionView::CompleteUpload { parts, .. } = a {
            assert forall|k: int| 0 <= k < parts.len() implies (#[trigger] parts[k]).part_number
                == k + 1 by {
                if k < s.parts.len() {
                    assert(parts[k] == s.parts[k]);
                }
            }
        }
        assert forall|i: int|
            0 <= i < acts.len() && (#[trigger] acts[i]) is UploadPart implies uploaded_part(acts[i])
            == requested(s) + uploads_in(acts.take(i)) + 1 by {
            if i == 0 {
                assert(acts.take(0) == Seq::<ActionView>::empty());
            } else {
                lemma_uploads_in_prefix(a, rest, i);
                assert(acts[i] == rest[i - 1]);
            }
        }
        assert forall|i: int|
            0 <= i < acts.len() && (#[trigger] acts[i]) is CompleteUpload implies {
            let parts = manifest(acts[i]);
            &&& numbered_in_order(parts)
            &&& parts.len() == s.plan.len()
            &&& parts.len() == requested(s) + uploads_in(acts.take(i))
        } by {
            if i == 0 {
                assert(acts.take(0) == Seq::<ActionView>::empty());
            } else {
                lemma_uploads_in_prefix(a, rest, i);
                assert(acts[i] == rest[i - 1]);
            }
        }
    }
}

/// The integrity tags that `s` accepts from `events`, in the order received:
/// the answers that report a stored part while it is uploading.
pub open spec fn accepted_tags(s: SessionView, events: Seq<Event>) -> Seq<String>
    decreases events.len(),
{
    if events.len() == 0 || s.is_finished() {
        seq![]
    } else {
        let here = match (s.phase, events[0]) {
            (Phase::Uploading { .. }, Event::PartUploaded(e_tag)) => seq![e_tag],
            _ => seq![],
        };
        here + accepted_tags(s.step(events[0]).0, events.drop_first())
    }
}

/// The tags of `parts`, in order.
pub open spec fn tags_of(parts: Seq<CompletedPart>) -> Seq<String> {
    parts.map_values(|p: CompletedPart| p.e_tag)
}

proof fn lemma_run_tags(s: SessionView, events: Seq<Event>)
    requires
        s.wf(),
    ensures
        forall|i: int|
            0 <= i < run(s, events).len() && (#[trigger] run(s, events)[i]) is CompleteUpload
                ==> tags_of(manifest(run(s, events)[i])) == (tags_of(s.parts) + accepted_tags(
                s,
                events,
            )).take(manifest(run(s, events)[i]).len() as int),
    decreases events.len(),
{
    if events.len() == 0 || s.is_finished() {
    } else {
        let e = events[0];
        let (next, a) = s.step(e);
        let rest_events = events.drop_first();
        let rest = run(next, rest_events);
        let acts = run(s, events);
        assert(acts == seq![a] + rest);
        lemma_step_keeps_wf(s, e);
        lemma_run_tags(next, rest_events);
        let stream = tags_of(s.parts) + accepted_tags(s, events);
        if past_uploads(next) {
            lemma_past_uploads_run(next, rest_events);
        } else {
            assert(stream =~= tags_of(next.parts) + accepted_tags(next, rest_events));
        }
        if let ActionView::CompleteUpload { parts, .. } = a {
            assert(tags_of(parts) =~= stream.take(parts.len() as int));
        }
        assert forall|i: int|
            0 <= i < acts.len() && (#[trigger] acts[i]) is CompleteUpload implies tags_of(
            manifest(acts[i]),
        ) == stream.take(manifest(acts[i]).len() as int) by {
            if i > 0 {
                assert(acts[i] == rest[i - 1]);
            }
        }
    }
}

/// Whatever the stores answer, a session that has just started asks for
/// parts in strictly ascending order, one after the other: the k-th part
/// upload it asks for is part k. The list of parts that it completes the
/// upload with names parts 1, 2, ... in that same order, one entry for each
/// part of the plan and for each part upload asked for before it, and holds
/// the integrity tags that the store returned for those parts, in the order
/// it returned them.
pub proof fn lemma_parts_in_ascending_order(s: SessionView, events: Seq<Event>)
    requires
        s.wf(),
        s.phase == Phase::InsertingVideo,
    ensures
        forall|i: int|
            0 <= i < run(s, events).len() && (#[trigger] run(s, events)[i]) is UploadPart
                ==> uploaded_part(run(s, events)[i]) == uploads_in(run(s, events).take(i)) + 1,
        forall|i: int|
            0 <= i < run(s, events).len() && (#[trigger] run(s, events)[i]) is CompleteUpload
                ==> {
                let parts = manifest(run(s, events)[i]);
                &&& numbered_in_order(parts)
                &&& parts.len() == s.plan.len()
                &&& parts.len() == uploads_in(run(s, events).take(i))
                &&& tags_of(parts) == accepted_tags(s, events).take(parts.len() as int)
            },
{
    lemma_run_order(s, events);
    lemma_run_tags(s, events);
    assert(tags_of(s.parts) + accepted_tags(s, events) =~= accepted_tags(s, events));
}

/// When inserting the video record fails, the upload ends there with a
/// metadata error, whatever its size: the object store is never called, so
/// no multipart upload is begun.
pub proof fn lemma_insert_failure_makes_no_storage_call(s: SessionView, events: Seq<Event>)
    requires
        s.wf(),
        s.phase == Phase::InsertingVideo,
        events.len() >= 1,
        !(events[0] is VideoInserted),
    ensures
        run(s, events) == seq![ActionView::Finish(Err(UploadError::MetadataInsert))],
{
    let (next, a) = s.step(events[0]);
    assert(next.is_finished());
    assert(run(next, events.drop_first()) == Seq::<ActionView>::empty());
    assert(seq![a] + Seq::<ActionView>::empty() =~= seq![a]);
}

/// When linking the video record to its group fails, the upload ends there
/// with a metadata error: no multipart upload is begun.
pub proof fn lemma_link_failure_makes_no_storage_call(s: SessionView, events: Seq<Event>)
    requires
        s.wf(),
        s.phase == Phase::LinkingVideo,
        events.len() >= 1,
        !(events[0] is VideoLinked),
    ensures
        run(s, events) == seq![ActionView::Finish(Err(UploadError::GroupLink))],
{
    let (next, a) = s.step(events[0]);
    assert(next.is_finished());
    assert(run(next, events.drop_first()) == Seq::<ActionView>::empty());
    assert(seq![a] + Seq::<ActionView>::empty() =~= seq![a]);
}

/// When a part upload fails, the multipart upload is aborted and never
/// completed, and the upload ends with a server error that names the part,
/// whatever the abort answers.
pub proof fn lemma_part_failure_aborts(s: SessionView, events: Seq<Event>)
    requires
        s.wf(),
        s.phase is Uploading,
        events.len() >= 2,
        !(events[0] is PartUploaded),
    ensures
        ({
            let index = s.phase->Uploading_index;
            let failure = UploadError::PartUpload(s.plan[index as int].part_number);
            &&& run(s, events) == seq![
                ActionView::AbortUpload {
                    bucket: s.bucket,
                    key: s.key,
                    upload_id: s.phase->Uploading_upload_id,
                },
                ActionView::Finish(Err(failure)),
            ]
            &&& !(failure is Validation)
        }),
{
    let (s1, a1) = s.step(events[0]);
    let rest = events.drop_first();
    let (s2, a2) = s1.step(rest[0]);
    assert(s2.is_finished());
    assert(run(s2, rest.drop_first()) == Seq::<ActionView>::empty());
    assert(run(s1, rest) =~= seq![a2]);
    assert(run(s, events) =~= seq![a1, a2]);
}

/// A size that cannot be planned (empty, or more parts than the maximum)
/// ends the upload before any call: the only action reports the validation
/// error, and the session then takes no event.
pub proof fn lemma_rejected_size_makes_no_call(
    config: UploadConfig,
    name: String,
    key: String,
    total_size: u64,
    group_id: i64,
    s: SessionView,
    a: ActionView,
    events: Seq<Event>,
)
    requires
        is_start(config, name, key, total_size, group_id, s, a),
        plan_error(total_size as nat, config.part_size as nat, config.max_parts as nat) is Some,
    ensures
        ({
            let e = plan_error(
                total_size as nat,
                config.part_size as nat,
                config.max_parts as nat,
            )->Some_0;
            &&& a == ActionView::Finish(Err(UploadError::Validation(e)))
            &&& (e == SizeError::Empty <==> total_size == 0)
            &&& (e == SizeError::TooManyParts <==> total_size > 0 && crate::planner::part_count(
                total_size as nat,
                config.part_size as nat,
            ) > config.max_parts)
        }),
        run(s, events) == Seq::<ActionView>::empty(),
{
}

} // verus!
