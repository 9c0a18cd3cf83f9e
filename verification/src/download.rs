//! The course of one download, as a state machine.
//!
//! The driver performs each action and hands its outcome back as an event.
//! No step is retried, and nothing that was written is taken back when a
//! later step fails.

use crate::fetch::framed;
use crate::fetch::message_text;
use crate::fetch::optional_text;
use crate::fetch::prepare_request;
use crate::fetch::FetchError;
use crate::fetch::FetchErrorModel;
use crate::fetch::FetchRequest;
use crate::fetch::FetchRequestModel;
use crate::fetch::FileOperation;
use crate::fetch::PreparedRequest;
use crate::fetch::PreparedRequestModel;
use crate::fetch::TransportStage;
use crate::status::three_digits;
use crate::status::status_reason_text;
use crate::status::HttpStatus;
use vstd::prelude::*;

verus! {

/// Where a download stands: what it did last and which event it awaits.
#[derive(Debug, Clone, Copy, PartialEq, Eq)]
pub enum FetchState {
    /// Nothing was done yet.
    Idle,
    /// The client is being built.
    BuildingClient,
    /// The request is on its way.
    Sending,
    /// The remote end refused with `status`; the body of its answer is being
    /// read.
    ReadingRejection { status: HttpStatus },
    /// The destination file is being created.
    CreatingFile,
    /// The body of the response is being read.
    ReadingBody,
    /// The body is being written to the destination file.
    Writing,
    /// The download is over.
    Finished,
}

/// What the driver reports back.
#[derive(Debug, PartialEq, Eq)]
pub enum FetchEvent {
    /// The download is to begin.
    Started,
    /// The client was built, or could not be.
    ClientBuilt(Result<(), String>),
    /// The remote end answered with a status, or the request failed.
    Responded(Result<HttpStatus, String>),
    /// The body of a refusal was read as text, or could not be read.
    RejectionRead(Option<String>),
    /// The destination file was created or truncated, or could not be.
    FileCreated(Result<(), String>),
    /// The whole body of the response was read, or reading failed.
    BodyRead(Result<Vec<u8>, String>),
    /// The body was written in full, or writing failed.
    Written(Result<(), String>),
}

/// A `FetchEvent` as plain values.
pub enum FetchEventModel {
    Started,
    ClientBuilt(Result<(), Seq<char>>),
    Responded(Result<HttpStatus, Seq<char>>),
    RejectionRead(Option<Seq<char>>),
    FileCreated(Result<(), Seq<char>>),
    BodyRead(Result<Seq<u8>, Seq<char>>),
    Written(Result<(), Seq<char>>),
}

/// The outcome of a step that yields nothing, with the cause as plain text.
pub open spec fn unit_outcome(outcome: Result<(), String>) -> Result<(), Seq<char>> {
    match outcome {
        Ok(_) => Ok(()),
        Err(cause) => Err(cause@),
    }
}

impl View for FetchEvent {
    type V = FetchEventModel;

    open spec fn view(&self) -> FetchEventModel {
        match *self {
            FetchEvent::Started => FetchEventModel::Started,
            FetchEvent::ClientBuilt(outcome) => FetchEventModel::ClientBuilt(unit_outcome(outcome)),
            FetchEvent::Responded(outcome) => FetchEventModel::Responded(
                match outcome {
                    Ok(status) => Ok(status),
                    Err(cause) => Err(cause@),
                },
            ),
            FetchEvent::RejectionRead(text) => FetchEventModel::RejectionRead(optional_text(text)),
            FetchEvent::FileCreated(outcome) => FetchEventModel::FileCreated(unit_outcome(outcome)),
            FetchEvent::BodyRead(outcome) => FetchEventModel::BodyRead(
                match outcome {
                    Ok(bytes) => Ok(bytes@),
                    Err(cause) => Err(cause@),
                },
            ),
            FetchEvent::Written(outcome) => FetchEventModel::Written(unit_outcome(outcome)),
        }
    }
}

/// What the driver is to do next.
#[derive(Debug, PartialEq, Eq)]
pub enum FetchAction {
    /// Build the HTTP client. With `accept_invalid_certs` the client does not
    /// validate TLS certificates, so the transport is not authenticated.
    BuildClient { accept_invalid_certs: bool },
    /// Send `request` and wait for the status of the response.
    Send { request: PreparedRequest },
    /// Read the body of the refusal as text.
    ReadRejection,
    /// Create the file at `path`, or truncate it.
    CreateFile { path: String },
    /// Read the whole body of the response into memory.
    ReadBody,
    /// Write `contents` to the file that was created.
    Write { contents: Vec<u8> },
    /// Stop, and report `outcome`.
    Finish { outcome: Result<(), FetchError> },
}

/// A `FetchAction` as plain values.
pub enum FetchActionModel {
    BuildClient { accept_invalid_certs: bool },
    Send { request: PreparedRequestModel },
    ReadRejection,
    CreateFile { path: Seq<char> },
    ReadBody,
    Write { contents: Seq<u8> },
    Finish { outcome: Result<(), FetchErrorModel> },
}

impl View for FetchAction {
    type V = FetchActionModel;

    open spec fn view(&self) -> FetchActionModel {
        match *self {
            FetchAction::BuildClient { accept_invalid_certs } => FetchActionModel::BuildClient {
                accept_invalid_certs,
            },
            FetchAction::Send { request } => FetchActionModel::Send { request: request@ },
            FetchAction::ReadRejection => FetchActionModel::ReadRejection,
            FetchAction::CreateFile { path } => FetchActionModel::CreateFile { path: path@ },
            FetchAction::ReadBody => FetchActionModel::ReadBody,
            FetchAction::Write { contents } => FetchActionModel::Write { contents: contents@ },
            FetchAction::Finish { outcome } => FetchActionModel::Finish {
                outcome: match outcome {
                    Ok(_) => Ok(()),
                    Err(error) => Err(error@),
                },
            },
        }
    }
}

/// The text that stands for the body of a refusal that could not be read.
pub open spec fn unreadable_body_text() -> Seq<char> {
    "Could not read error response"@
}

/// The download stops with `error`.
pub open spec fn failed(error: FetchErrorModel) -> Option<(FetchState, FetchActionModel)> {
    Some((FetchState::Finished, FetchActionModel::Finish { outcome: Err(error) }))
}

/// The state that follows `state` on `event`, and the action to perform
/// then; `None` where `state` does not await `event`.
///
/// The client is built first, then the framed request is sent. A status that
/// is no success ends the download with a rejection that carries the body
/// of the answer, or a fixed text where the body cannot be read. On success
/// the file is created before the body is read, and the body is written as
/// it was read. Every failure ends the download at once.
pub open spec fn next(request: FetchRequestModel, state: FetchState, event: FetchEventModel)
    -> Option<(FetchState, FetchActionModel)> {
    match (state, event) {
        (FetchState::Idle, FetchEventModel::Started) => Some(
            (
                FetchState::BuildingClient,
                FetchActionModel::BuildClient { accept_invalid_certs: true },
            ),
        ),
        (FetchState::BuildingClient, FetchEventModel::ClientBuilt(Ok(_))) => Some(
            (FetchState::Sending, FetchActionModel::Send { request: framed(request) }),
        ),
        (FetchState::BuildingClient, FetchEventModel::ClientBuilt(Err(cause))) => failed(
            FetchErrorModel::Transport { stage: TransportStage::ClientBuild, cause },
        ),
        (FetchState::Sending, FetchEventModel::Responded(Ok(status))) => if status.success() {
            Some(
                (
                    FetchState::CreatingFile,
                    FetchActionModel::CreateFile { path: request.destination_path },
                ),
            )
        } else {
            Some((FetchState::ReadingRejection { status }, FetchActionModel::ReadRejection))
        },
        (FetchState::Sending, FetchEventModel::Responded(Err(cause))) => failed(
            FetchErrorModel::Transport { stage: TransportStage::Send, cause },
        ),
        (FetchState::ReadingRejection { status }, FetchEventModel::RejectionRead(text)) => failed(
            FetchErrorModel::RemoteRejected {
                status,
                body_text: match text {
                    Some(body) => body,
                    None => unreadable_body_text(),
                },
            },
        ),
        (FetchState::CreatingFile, FetchEventModel::FileCreated(Ok(_))) => Some(
            (FetchState::ReadingBody, FetchActionModel::ReadBody),
        ),
        (FetchState::CreatingFile, FetchEventModel::FileCreated(Err(cause))) => failed(
            FetchErrorModel::LocalIo {
                operation: FileOperation::Create,
                path: request.destination_path,
                cause,
            },
        ),
        (FetchState::ReadingBody, FetchEventModel::BodyRead(Ok(contents))) => Some(
            (FetchState::Writing, FetchActionModel::Write { contents }),
        ),
        (FetchState::ReadingBody, FetchEventModel::BodyRead(Err(cause))) => failed(
            FetchErrorModel::Transport { stage: TransportStage::ReadBody, cause },
        ),
        (FetchState::Writing, FetchEventModel::Written(Ok(_))) => Some(
            (FetchState::Finished, FetchActionModel::Finish { outcome: Ok(()) }),
        ),
        (FetchState::Writing, FetchEventModel::Written(Err(cause))) => failed(
            FetchErrorModel::LocalIo {
                operation: FileOperation::Write,
                path: request.destination_path,
                cause,
            },
        ),
        _ => None,
    }
}

/// The state of a download that has not begun.
pub fn begin() -> (state: FetchState)
    ensures
        state == FetchState::Idle,
{
    FetchState::Idle
}

/// The step that ends a download with `error`.
fn fail(error: FetchError) -> (step: Option<(FetchState, FetchAction)>)
    ensures
        step matches Some((state, action)) && Some((state, action@)) == failed(error@),
{
    Some((FetchState::Finished, FetchAction::Finish { outcome: Err(error) }))
}

/// Takes the download of `request` one step on: from `state` on `event` to
/// the state that follows and the action to perform then. Returns `None`
/// exactly where `state` does not await `event`.
pub fn advance(request: &FetchRequest, state: FetchState, event: FetchEvent) -> (step: Option<
    (FetchState, FetchAction),
>)
    ensures
        match step {
            Some((following, action)) => next(request@, state, event@) == Some(
                (following, action@),
            ),
            None => next(request@, state, event@) is None,
        },
{
    match (state, event) {
        (FetchState::Idle, FetchEvent::Started) => Some(
            (FetchState::BuildingClient, FetchAction::BuildClient { accept_invalid_certs: true }),
        ),
        (FetchState::BuildingClient, FetchEvent::ClientBuilt(Ok(_))) => Some(
            (FetchState::Sending, FetchAction::Send { request: prepare_request(request) }),
        ),
        (FetchState::BuildingClient, FetchEvent::ClientBuilt(Err(cause))) => fail(
            FetchError::Transport { stage: TransportStage::ClientBuild, cause },
        ),
        (FetchState::Sending, FetchEvent::Responded(Ok(status))) => {
            if status.is_success() {
                Some(
                    (
                        FetchState::CreatingFile,
                        FetchAction::CreateFile { path: request.destination_path.clone() },
                    ),
                )
            } else {
                Some((FetchState::ReadingRejection { status }, FetchAction::ReadRejection))
            }
        },
        (FetchState::Sending, FetchEvent::Responded(Err(cause))) => fail(
            FetchError::Transport { stage: TransportStage::Send, cause },
        ),
        (FetchState::ReadingRejection { status }, FetchEvent::RejectionRead(text)) => {
            let body_text: String = match text {
                Some(body) => body,
                None => "Could not read error response".to_owned(),
            };
            fail(FetchError::RemoteRejected { status, body_text })
        },
        (FetchState::CreatingFile, FetchEvent::FileCreated(Ok(_))) => Some(
            (FetchState::ReadingBody, FetchAction::ReadBody),
        ),
        (FetchState::CreatingFile, FetchEvent::FileCreated(Err(cause))) => fail(
            FetchError::LocalIo {
                operation: FileOperation::Create,
                path: request.destination_path.clone(),
                cause,
            },
        ),
        (FetchState::ReadingBody, FetchEvent::BodyRead(Ok(contents))) => Some(
            (FetchState::Writing, FetchAction::Write { contents }),
        ),
        (FetchState::ReadingBody, FetchEvent::BodyRead(Err(cause))) => fail(
            FetchError::Transport { stage: TransportStage::ReadBody, cause },
        ),
        (FetchState::Writing, FetchEvent::Written(Ok(_))) => Some(
            (FetchState::Finished, FetchAction::Finish { outcome: Ok(()) }),
        ),
        (FetchState::Writing, FetchEvent::Written(Err(cause))) => fail(
            FetchError::LocalIo {
                operation: FileOperation::Write,
                path: request.destination_path.clone(),
                cause,
            },
        ),
        _ => None,
    }
}

/// A status that is no success ends the download with a rejection: the body
/// is asked for, and whatever comes back, the download fails with that status
/// and the text of the body, or the fixed text where the body cannot be read.
/// The message of the failure holds the three digits of the status and the
/// text of the body.
pub proof fn lemma_rejection_on_failure_status(
    request: FetchRequestModel,
    status: HttpStatus,
    body: Option<Seq<char>>,
)
    requires
        !status.success(),
    ensures
        next(request, FetchState::Sending, FetchEventModel::Responded(Ok(status))) == Some(
            (FetchState::ReadingRejection { status }, FetchActionModel::ReadRejection),
        ),
        ({
            let body_text = match body {
                Some(text) => text,
                None => unreadable_body_text(),
            };
            let error = FetchErrorModel::RemoteRejected { status, body_text };
            &&& next(
                request,
                FetchState::ReadingRejection { status },
                FetchEventModel::RejectionRead(body),
            ) == failed(error)
            &&& message_text(error) == "Failed to download file: HTTP "@ + three_digits(
                status.value(),
            ) + seq![' '] + status_reason_text(status.value()) + " - Response: "@ + body_text
        }),
{
}

/// A download reports success on one path only: from the last state, when
/// the body was written in full.
pub proof fn lemma_success_only_after_write(
    request: FetchRequestModel,
    state: FetchState,
    event: FetchEventModel,
)
    ensures
        (next(request, state, event) matches Some(
            (_, FetchActionModel::Finish { outcome: Ok(_) }),
        )) <==> (state == FetchState::Writing && event matches FetchEventModel::Written(Ok(_))),
{
}

/// The course of a download that succeeds. The client is built without
/// certificate validation, the framed request is sent, the destination file
/// is created before the body is read, and what is written is the body as it
/// was read.
pub proof fn lemma_course_of_success(
    request: FetchRequestModel,
    status: HttpStatus,
    body: Seq<u8>,
)
    requires
        status.success(),
    ensures
        next(request, FetchState::Idle, FetchEventModel::Started) == Some(
            (
                FetchState::BuildingClient,
                FetchActionModel::BuildClient { accept_invalid_certs: true },
            ),
        ),
        next(request, FetchState::BuildingClient, FetchEventModel::ClientBuilt(Ok(()))) == Some(
            (FetchState::Sending, FetchActionModel::Send { request: framed(request) }),
        ),
        next(request, FetchState::Sending, FetchEventModel::Responded(Ok(status))) == Some(
            (
                FetchState::CreatingFile,
                FetchActionModel::CreateFile { path: request.destination_path },
            ),
        ),
        next(request, FetchState::CreatingFile, FetchEventModel::FileCreated(Ok(()))) == Some(
            (FetchState::ReadingBody, FetchActionModel::ReadBody),
        ),
        next(request, FetchState::ReadingBody, FetchEventModel::BodyRead(Ok(body))) == Some(
            (FetchState::Writing, FetchActionModel::Write { contents: body }),
        ),
        next(request, FetchState::Writing, FetchEventModel::Written(Ok(()))) == Some(
            (FetchState::Finished, FetchActionModel::Finish { outcome: Ok(()) }),
        ),
{
}

/// Once a download is over it awaits nothing, and no step is taken twice:
/// every step leaves the state it was taken from.
pub proof fn lemma_no_step_repeats(
    request: FetchRequestModel,
    state: FetchState,
    event: FetchEventModel,
)
    ensures
        state == FetchState::Finished ==> next(request, state, event) is None,
        next(request, state, event) matches Some((following, _)) ==> following != state,
{
}

} // verus!
