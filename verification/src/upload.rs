//! Uploading a file to a drive: in one request where it is small, in parts
//! within an upload session where it is not.
//!
//! A session ends in exactly one of two ways. When every part has been
//! attempted it is committed if all of them succeeded, and aborted if one
//! failed; a failed part does not keep the later ones from being attempted.

use crate::drive::{drive_url, plain_wire, Drive, Metadata};
use crate::request::{Method, Payload, Request, Wire};
use crate::text::{
    decimal, encoded_name, opt_str_text, opt_text, own_opt_str, percent_encode, push_decimal,
};
use crate::Store;
use vstd::prelude::*;
use vstd::slice::slice_subrange;

verus! {

/// The largest content that goes in one request, and the size of every part
/// of a larger one but the last.
pub const MAX_CHUNK_SIZE: usize = 10 * 1024 * 1024;

/// An upload that needs a session: what is to be sent, and where.
#[derive(Debug)]
pub struct ChunkUploader<'a> {
    drive: Drive,
    encoded: String,
    content: &'a [u8],
    content_type: Option<String>,
}

/// What a `ChunkUploader` holds.
pub struct Plan {
    pub store: Store,
    /// The name to save under, percent-encoded.
    pub encoded: Seq<char>,
    pub content: Seq<u8>,
    pub content_type: Option<Seq<char>>,
}

impl<'a> View for ChunkUploader<'a> {
    type V = Plan;

    closed spec fn view(&self) -> Plan {
        Plan {
            store: self.drive@,
            encoded: self.encoded@,
            content: self.content@,
            content_type: opt_text(self.content_type),
        }
    }
}

/// An upload session: the parts attempted so far, in order, and whether all
/// of them succeeded.
#[derive(Debug)]
pub struct UploadSession<'a> {
    plan: ChunkUploader<'a>,
    upload_id: String,
    target_name: String,
    parts_uploaded: Vec<usize>,
    all_succeeded: bool,
}

/// What an `UploadSession` holds.
pub struct SessionView {
    pub plan: Plan,
    pub upload_id: Seq<char>,
    pub target_name: Seq<char>,
    pub parts_uploaded: Seq<usize>,
    pub all_succeeded: bool,
}

impl<'a> View for UploadSession<'a> {
    type V = SessionView;

    closed spec fn view(&self) -> SessionView {
        SessionView {
            plan: self.plan@,
            upload_id: self.upload_id@,
            target_name: self.target_name@,
            parts_uploaded: self.parts_uploaded@,
            all_succeeded: self.all_succeeded,
        }
    }
}

/// How an upload begins.
#[derive(Debug)]
pub enum Upload<'a> {
    /// The content goes in this one request; its response is the result.
    Direct(Request<'a>),
    /// The content needs a session, which this request asks for. Where the
    /// request fails the upload has failed, and nothing is left to undo.
    Chunked(ChunkUploader<'a>, Request<'a>),
}

/// What an `Upload` holds.
pub enum UploadView {
    Direct(Wire),
    Chunked(Plan, Wire),
}

impl<'a> View for Upload<'a> {
    type V = UploadView;

    open spec fn view(&self) -> UploadView {
        match self {
            Upload::Direct(request) => UploadView::Direct(request@),
            Upload::Chunked(plan, request) => UploadView::Chunked(plan@, request@),
        }
    }
}

/// What follows in a session.
#[derive(Debug)]
pub enum UploadStep<'a> {
    /// This request sends the next part; its outcome goes to
    /// `UploadSession::record`.
    Part(UploadSession<'a>, Request<'a>),
    /// All parts succeeded: this request completes the upload, and its
    /// response is the result.
    Commit(Request<'a>),
    /// A part failed: this request gives the session up, and its response is
    /// the result.
    Abort(Request<'a>),
}

/// What an `UploadStep` holds.
pub enum StepView {
    Part(SessionView, Wire),
    Commit(Wire),
    Abort(Wire),
}

impl<'a> View for UploadStep<'a> {
    type V = StepView;

    open spec fn view(&self) -> StepView {
        match self {
            UploadStep::Part(session, request) => StepView::Part(session@, request@),
            UploadStep::Commit(request) => StepView::Commit(request@),
            UploadStep::Abort(request) => StepView::Abort(request@),
        }
    }
}

/// The number of parts of a content of `len` bytes.
pub open spec fn part_count(len: nat) -> nat {
    ((len + MAX_CHUNK_SIZE - 1) / (MAX_CHUNK_SIZE as int)) as nat
}

/// Where part `part` starts. Parts are counted from 1.
pub open spec fn part_start(part: nat) -> int {
    (part - 1) * MAX_CHUNK_SIZE
}

/// Where part `part` of a content of `len` bytes ends.
pub open spec fn part_end(len: nat, part: nat) -> int {
    if part * MAX_CHUNK_SIZE < len {
        part * MAX_CHUNK_SIZE
    } else {
        len as int
    }
}

/// The bytes of part `part` of `content`.
pub open spec fn part_bytes(content: Seq<u8>, part: nat) -> Seq<u8> {
    content.subrange(part_start(part), part_end(content.len(), part))
}

/// The parts 1 to `n`, in order.
pub open spec fn first_parts(n: nat) -> Seq<usize> {
    Seq::new(n, |i: int| (i + 1) as usize)
}

/// The path that takes a whole file.
pub open spec fn direct_path(encoded: Seq<char>) -> Seq<char> {
    "/files?name="@ + encoded
}

/// The path that opens a session.
pub open spec fn initiate_path(encoded: Seq<char>) -> Seq<char> {
    "/uploads?name="@ + encoded
}

/// The path that takes part `part` of the session `upload_id`.
pub open spec fn part_path(upload_id: Seq<char>, encoded: Seq<char>, part: nat) -> Seq<char> {
    "/uploads/"@ + upload_id + "/parts?name="@ + encoded + "&part="@ + decimal(part)
}

/// The path of the session `upload_id` itself, on which it is committed or
/// aborted.
pub open spec fn session_path(upload_id: Seq<char>, encoded: Seq<char>) -> Seq<char> {
    "/uploads/"@ + upload_id + "?name="@ + encoded
}

/// The announced type of a binary body.
pub open spec fn binary_type(content_type: Option<Seq<char>>) -> Seq<char> {
    match content_type {
        Some(c) => c,
        None => "application/octet-stream"@,
    }
}

/// A request of a drive that carries bytes.
pub open spec fn bytes_wire(
    store: Store,
    path: Seq<char>,
    bytes: Seq<u8>,
    content_type: Option<Seq<char>>,
) -> Wire {
    Wire {
        method: Method::Post,
        url: drive_url(store, path),
        api_key: store.project.key,
        content_type: Some(binary_type(content_type)),
        body: Payload::Bytes(bytes),
    }
}

/// The request that sends part `part` in a session.
pub open spec fn part_wire(plan: Plan, upload_id: Seq<char>, part: nat) -> Wire {
    bytes_wire(
        plan.store,
        part_path(upload_id, plan.encoded, part),
        part_bytes(plan.content, part),
        plan.content_type,
    )
}

/// The request that completes a session.
pub open spec fn commit_wire(plan: Plan, upload_id: Seq<char>) -> Wire {
    plain_wire(plan.store, Method::Patch, session_path(upload_id, plan.encoded))
}

/// The request that gives a session up.
pub open spec fn abort_wire(plan: Plan, upload_id: Seq<char>) -> Wire {
    plain_wire(plan.store, Method::Delete, session_path(upload_id, plan.encoded))
}

/// What is to be uploaded to `store` under the name `save_as`.
pub open spec fn plan_for(
    store: Store,
    save_as: Seq<char>,
    content: Seq<u8>,
    content_type: Option<Seq<char>>,
) -> Plan {
    Plan { store, encoded: encoded_name(save_as), content, content_type }
}

/// How the upload of `plan` begins: with the one request that carries it all
/// where the content is no longer than `MAX_CHUNK_SIZE`, and with the request
/// for a session where it is longer.
pub open spec fn begin(plan: Plan) -> UploadView {
    if plan.content.len() <= MAX_CHUNK_SIZE {
        UploadView::Direct(
            bytes_wire(plan.store, direct_path(plan.encoded), plan.content, plan.content_type),
        )
    } else {
        UploadView::Chunked(
            plan,
            plain_wire(plan.store, Method::Post, initiate_path(plan.encoded)),
        )
    }
}

/// The session that the service opened for `plan`, before any part is sent.
pub open spec fn opened(plan: Plan, upload_id: Seq<char>, name: Seq<char>) -> SessionView {
    SessionView {
        plan,
        upload_id,
        target_name: name,
        parts_uploaded: Seq::empty(),
        all_succeeded: true,
    }
}

/// What follows the attempt to send the next part of `session`. The attempt
/// is recorded. While parts are left the next one is sent, whatever became of
/// this one. After the last part the session is committed if all parts
/// succeeded, and aborted if not.
pub open spec fn recorded(session: SessionView, succeeded: bool) -> StepView {
    let part = (session.parts_uploaded.len() + 1) as nat;
    let after = SessionView {
        plan: session.plan,
        upload_id: session.upload_id,
        target_name: session.target_name,
        parts_uploaded: session.parts_uploaded.push(part as usize),
        all_succeeded: session.all_succeeded && succeeded,
    };
    if part < part_count(session.plan.content.len()) {
        StepView::Part(after, part_wire(session.plan, session.upload_id, part + 1))
    } else if after.all_succeeded {
        StepView::Commit(commit_wire(session.plan, session.upload_id))
    } else {
        StepView::Abort(abort_wire(session.plan, session.upload_id))
    }
}

/// A session in which parts are left to send: the content needs a session,
/// and the parts attempted are the first ones, in order.
pub open spec fn session_open(session: SessionView) -> bool {
    &&& session.plan.content.len() > MAX_CHUNK_SIZE
    &&& session.parts_uploaded.len() < part_count(session.plan.content.len())
    &&& session.parts_uploaded == first_parts(session.parts_uploaded.len())
}

/// A part exists if and only if it starts inside the content.
pub proof fn lemma_part_exists(len: nat, part: nat)
    requires
        part >= 1,
    ensures
        part <= part_count(len) <==> part_start(part) < len,
        part < part_count(len) <==> part * MAX_CHUNK_SIZE < len,
        part_start(part + 1) == part_start(part) + MAX_CHUNK_SIZE == part * MAX_CHUNK_SIZE,
        part_count(len) <= len,
{
    assert(MAX_CHUNK_SIZE == 10485760);
}

/// The step that is reached when the outcomes of the next parts of
/// `session` are recorded one after another. Outcomes that come after the
/// session has ended are not looked at.
pub open spec fn after_outcomes(session: SessionView, outcomes: Seq<bool>) -> StepView
    decreases outcomes.len(),
{
    let step = recorded(session, outcomes.first());
    if outcomes.len() <= 1 {
        step
    } else {
        match step {
            StepView::Part(next, _) => after_outcomes(next, outcomes.drop_first()),
            _ => step,
        }
    }
}

/// Whether every outcome is a success.
pub open spec fn all_true(outcomes: Seq<bool>) -> bool {
    forall|i: int| 0 <= i < outcomes.len() ==> outcomes[i]
}

/// The parts 1 to `upto` of `content`, joined in order.
pub open spec fn parts_joined(content: Seq<u8>, upto: nat) -> Seq<u8>
    decreases upto,
{
    if upto == 0 {
        Seq::empty()
    } else {
        parts_joined(content, (upto - 1) as nat) + part_bytes(content, upto)
    }
}

proof fn lemma_run(session: SessionView, outcomes: Seq<bool>)
    requires
        session_open(session),
        1 <= outcomes.len(),
        session.parts_uploaded.len() + outcomes.len() <= part_count(session.plan.content.len()),
    ensures
        ({
            let done = session.parts_uploaded.len() + outcomes.len();
            let ok = session.all_succeeded && all_true(outcomes);
            let step = after_outcomes(session, outcomes);
            if done < part_count(session.plan.content.len()) {
                step == StepView::Part(
                    SessionView {
                        plan: session.plan,
                        upload_id: session.upload_id,
                        target_name: session.target_name,
                        parts_uploaded: first_parts(done),
                        all_succeeded: ok,
                    },
                    part_wire(session.plan, session.upload_id, done + 1),
                )
            } else if ok {
                step == StepView::Commit(commit_wire(session.plan, session.upload_id))
            } else {
                step == StepView::Abort(abort_wire(session.plan, session.upload_id))
            }
        }),
    decreases outcomes.len(),
{
    let attempted = session.parts_uploaded.len();
    assert(session.parts_uploaded.push((attempted + 1) as usize) =~= first_parts(attempted + 1));
    if outcomes.len() > 1 {
        let rest = outcomes.drop_first();
        let step = recorded(session, outcomes.first());
        match step {
            StepView::Part(next, _) => {
                lemma_run(next, rest);
                assert(all_true(outcomes) <==> outcomes.first() && all_true(rest)) by {
                    if outcomes.first() && all_true(rest) {
                        assert forall|i: int| 0 <= i < outcomes.len() implies outcomes[i] by {
                            if i > 0 {
                                assert(outcomes[i] == rest[i - 1]);
                            }
                        }
                    }
                    if all_true(outcomes) {
                        assert forall|i: int| 0 <= i < rest.len() implies rest[i] by {
                            assert(rest[i] == outcomes[i + 1]);
                        }
                    }
                }
            },
            _ => {
                assert(false);
            },
        }
    }
}

/// An upload session sends every part and ends once. From the session that
/// the service opened, the outcomes of the first parts, however many of them
/// failed, lead to the request for the next part as long as parts are left.
/// The outcome of the last part leads to the commit if every part succeeded,
/// and to the abort if any part failed: never to both, never to neither.
pub proof fn lemma_session_ends_once(
    plan: Plan,
    upload_id: Seq<char>,
    name: Seq<char>,
    outcomes: Seq<bool>,
)
    requires
        plan.content.len() > MAX_CHUNK_SIZE,
        outcomes.len() == part_count(plan.content.len()),
    ensures
        forall|k: int|
            1 <= k < outcomes.len() ==> (#[trigger] after_outcomes(
                opened(plan, upload_id, name),
                outcomes.take(k),
            ) matches StepView::Part(_, request) && request == part_wire(
                plan,
                upload_id,
                (k + 1) as nat,
            )),
        all_true(outcomes) ==> after_outcomes(opened(plan, upload_id, name), outcomes)
            == StepView::Commit(commit_wire(plan, upload_id)),
        !all_true(outcomes) ==> after_outcomes(opened(plan, upload_id, name), outcomes)
            == StepView::Abort(abort_wire(plan, upload_id)),
{
    let session = opened(plan, upload_id, name);
    lemma_part_exists(plan.content.len(), 1);
    assert(session.parts_uploaded =~= first_parts(0));
    lemma_run(session, outcomes);
    assert forall|k: int| 1 <= k < outcomes.len() implies (#[trigger] after_outcomes(
        session,
        outcomes.take(k),
    ) matches StepView::Part(_, request) && request == part_wire(
        plan,
        upload_id,
        (k + 1) as nat,
    )) by {
        lemma_run(session, outcomes.take(k));
    }
}

/// Every part but the last has `MAX_CHUNK_SIZE` bytes, and the last has the
/// rest, which is at least one byte.
pub proof fn lemma_part_sizes(content: Seq<u8>, part: nat)
    requires
        1 <= part <= part_count(content.len()),
    ensures
        part < part_count(content.len()) ==> part_bytes(content, part).len() == MAX_CHUNK_SIZE,
        part == part_count(content.len()) ==> part_bytes(content, part).len() == content.len()
            - part_start(part),
        1 <= part_bytes(content, part).len() <= MAX_CHUNK_SIZE,
{
    lemma_part_exists(content.len(), part);
}

/// The parts of a content, joined in order, are the content.
pub proof fn lemma_parts_cover(content: Seq<u8>, upto: nat)
    requires
        upto <= part_count(content.len()),
    ensures
        upto < part_count(content.len()) ==> parts_joined(content, upto) == content.take(
            upto * MAX_CHUNK_SIZE,
        ),
        upto == part_count(content.len()) ==> parts_joined(content, upto) == content,
    decreases upto,
{
    if upto == 0 {
        // A content without parts is empty.
        lemma_part_exists(content.len(), 1);
    } else {
        lemma_parts_cover(content, (upto - 1) as nat);
        lemma_part_exists(content.len(), upto);
        assert(parts_joined(content, upto) =~= content.take(part_end(content.len(), upto)));
    }
}

/// One encoding of the name serves the whole upload. The request that
/// carries a small file, the request that opens a session, the request of
/// every part and the requests that commit and abort the session all hold
/// the same text for the name: the percent-encoding of `save_as`, encoded
/// once.
pub proof fn lemma_one_encoded_name(
    store: Store,
    save_as: Seq<char>,
    content: Seq<u8>,
    content_type: Option<Seq<char>>,
    upload_id: Seq<char>,
    part: nat,
)
    ensures
        ({
            let plan = plan_for(store, save_as, content, content_type);
            let name = encoded_name(save_as);
            &&& begin(plan) matches UploadView::Direct(w) ==> w.url == drive_url(
                store,
                "/files?name="@ + name,
            )
            &&& begin(plan) matches UploadView::Chunked(p, w) ==> p == plan && w.url == drive_url(
                store,
                "/uploads?name="@ + name,
            )
            &&& part_wire(plan, upload_id, part).url == drive_url(
                store,
                "/uploads/"@ + upload_id + "/parts?name="@ + name + "&part="@ + decimal(part),
            )
            &&& commit_wire(plan, upload_id).url == drive_url(
                store,
                "/uploads/"@ + upload_id + "?name="@ + name,
            )
            &&& abort_wire(plan, upload_id).url == commit_wire(plan, upload_id).url
        }),
{
}

impl<'a> ChunkUploader<'a> {
    #[verifier::type_invariant]
    spec fn needs_session(&self) -> bool {
        self.content@.len() > MAX_CHUNK_SIZE
    }

    /// The request that sends part `part` in the session `upload_id`.
    fn part_request(&self, upload_id: &str, part: usize) -> (r: Request<'a>)
        requires
            part >= 1,
            part_start(part as nat) < self@.content.len(),
        ensures
            r@ == part_wire(self@, upload_id@, part as nat),
    {
        proof {
            lemma_part_exists(self@.content.len(), part as nat);
        }
        let len = self.content.len();
        let start = (part - 1) * MAX_CHUNK_SIZE;
        let end = if len - start > MAX_CHUNK_SIZE {
            start + MAX_CHUNK_SIZE
        } else {
            len
        };
        let mut path = String::from_str("/uploads/");
        path.append(upload_id);
        path.append("/parts?name=");
        path.append(self.encoded.as_str());
        path.append("&part=");
        push_decimal(&mut path, part as u64);
        let bytes = slice_subrange(self.content, start, end);
        let content_type = match &self.content_type {
            Some(c) => Some(c.as_str()),
            None => None,
        };
        self.drive.request(Method::Post, path.as_str(), None, Some(bytes), content_type).unwrap()
    }

    /// The request on the session `upload_id` itself.
    fn session_request(&self, method: Method, upload_id: &str) -> (r: Request<'static>)
        ensures
            r@ == plain_wire(self@.store, method, session_path(upload_id@, self@.encoded)),
    {
        let mut path = String::from_str("/uploads/");
        path.append(upload_id);
        path.append("?name=");
        path.append(self.encoded.as_str());
        self.drive.plain_request(method, path.as_str())
    }

    /// The session that the service opened, and the request for its first
    /// part.
    pub fn initiated(self, meta: Metadata) -> (step: UploadStep<'a>)
        ensures
            step@ == StepView::Part(
                opened(self@, meta.upload_id@, meta.name@),
                part_wire(self@, meta.upload_id@, 1),
            ),
            session_open(opened(self@, meta.upload_id@, meta.name@)),
    {
        proof {
            use_type_invariant(&self);
            lemma_part_exists(self@.content.len(), 1);
        }
        let request = self.part_request(meta.upload_id.as_str(), 1);
        let parts_uploaded: Vec<usize> = Vec::new();
        assert(parts_uploaded@ =~= first_parts(0));
        let session = UploadSession {
            plan: self,
            upload_id: meta.upload_id,
            target_name: meta.name,
            parts_uploaded,
            all_succeeded: true,
        };
        UploadStep::Part(session, request)
    }
}

impl<'a> UploadSession<'a> {
    #[verifier::type_invariant]
    spec fn parts_left(&self) -> bool {
        session_open(self@)
    }

    /// The identifier that the service gave to this session.
    pub fn upload_id(&self) -> (id: &str)
        ensures
            id@ == self@.upload_id,
    {
        self.upload_id.as_str()
    }

    /// The name under which the service saves the file.
    pub fn target_name(&self) -> (name: &str)
        ensures
            name@ == self@.target_name,
    {
        self.target_name.as_str()
    }

    /// The parts attempted so far, in order.
    pub fn parts_uploaded(&self) -> (parts: &Vec<usize>)
        ensures
            parts@ == self@.parts_uploaded,
    {
        &self.parts_uploaded
    }

    /// Whether every part attempted so far succeeded.
    pub fn all_succeeded(&self) -> (all: bool)
        ensures
            all == self@.all_succeeded,
    {
        self.all_succeeded
    }

    /// What follows the attempt to send the next part, which succeeded or
    /// not.
    pub fn record(self, succeeded: bool) -> (step: UploadStep<'a>)
        ensures
            step@ == recorded(self@, succeeded),
            step@ matches StepView::Part(after, _) ==> session_open(after),
    {
        proof {
            use_type_invariant(&self);
            use_type_invariant(&self.plan);
        }
        let UploadSession { plan, upload_id, target_name, parts_uploaded, all_succeeded } = self;
        let mut parts_uploaded = parts_uploaded;
        let len = plan.content.len();
        proof {
            lemma_part_exists(len as nat, 1);
        }
        let part = parts_uploaded.len() + 1;
        proof {
            lemma_part_exists(len as nat, part as nat);
            lemma_part_exists(len as nat, (part + 1) as nat);
        }
        if len - (part - 1) * MAX_CHUNK_SIZE > MAX_CHUNK_SIZE {
            parts_uploaded.push(part);
            assert(parts_uploaded@ =~= first_parts(part as nat));
            let request = plan.part_request(upload_id.as_str(), part + 1);
            let session = UploadSession {
                plan,
                upload_id,
                target_name,
                parts_uploaded,
                all_succeeded: all_succeeded && succeeded,
            };
            UploadStep::Part(session, request)
        } else if all_succeeded && succeeded {
            UploadStep::Commit(plan.session_request(Method::Patch, upload_id.as_str()))
        } else {
            UploadStep::Abort(plan.session_request(Method::Delete, upload_id.as_str()))
        }
    }
}

impl Drive {
    /// Begins the upload of `content` under the name `save_as`.
    pub fn put<'a>(&self, save_as: &str, content: &'a [u8], content_type: Option<&str>) -> (upload:
        Upload<'a>)
        ensures
            upload@ == begin(plan_for(self@, save_as@, content@, opt_str_text(content_type))),
    {
        let encoded = percent_encode(save_as);
        if content.len() <= MAX_CHUNK_SIZE {
            let mut path = String::from_str("/files?name=");
            path.append(encoded.as_str());
            let whole = Some(content);
            Upload::Direct(
                self.request(Method::Post, path.as_str(), None, whole, content_type).unwrap(),
            )
        } else {
            let mut path = String::from_str("/uploads?name=");
            path.append(encoded.as_str());
            let request = self.plain_request(Method::Post, path.as_str());
            let plan = ChunkUploader {
                drive: self.clone(),
                encoded,
                content,
                content_type: own_opt_str(content_type),
            };
            Upload::Chunked(plan, request)
        }
    }
}

} // verus!
