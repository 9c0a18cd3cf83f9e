use comic_ingest::download::advance;
use comic_ingest::download::begin;
use comic_ingest::download::FetchAction;
use comic_ingest::download::FetchEvent;
use comic_ingest::download::FetchState;
use comic_ingest::fetch::prepare_request;
use comic_ingest::fetch::FetchError;
use comic_ingest::fetch::FetchRequest;
use comic_ingest::fetch::FileOperation;
use comic_ingest::fetch::TransportStage;
use comic_ingest::status::HttpStatus;

fn request() -> FetchRequest {
    FetchRequest::new(
        "https://example.test/a.cbz".to_string(),
        "/library/a.cbz".to_string(),
        Some("tok".to_string()),
        None,
        None,
    )
}

fn status(code: u16) -> HttpStatus {
    HttpStatus::from_code(code).expect("a status code")
}

fn step(state: FetchState, event: FetchEvent) -> (FetchState, FetchAction) {
    advance(&request(), state, event).expect("the state awaits the event")
}

fn failure(state: FetchState, event: FetchEvent) -> FetchError {
    match step(state, event) {
        (FetchState::Finished, FetchAction::Finish { outcome: Err(error) }) => error,
        other => panic!("expected a failure, got {:?}", other),
    }
}

#[test]
fn fetch_fails_on_404_with_status_and_body() {
    let (state, action) = step(FetchState::Sending, FetchEvent::Responded(Ok(status(404))));
    assert_eq!(state, FetchState::ReadingRejection { status: status(404) });
    assert_eq!(action, FetchAction::ReadRejection);
    let error = failure(state, FetchEvent::RejectionRead(Some("not found".to_string())));
    assert_eq!(
        error,
        FetchError::RemoteRejected { status: status(404), body_text: "not found".to_string() }
    );
    let message = error.message();
    assert!(message.contains("404"));
    assert!(message.contains("not found"));
    assert_eq!(message, "Failed to download file: HTTP 404 Not Found - Response: not found");
}

#[test]
fn unreadable_rejection_body_gets_the_fixed_text() {
    let state = FetchState::ReadingRejection { status: status(500) };
    let error = failure(state, FetchEvent::RejectionRead(None));
    assert_eq!(
        error,
        FetchError::RemoteRejected {
            status: status(500),
            body_text: "Could not read error response".to_string(),
        }
    );
    assert_eq!(
        error.message(),
        "Failed to download file: HTTP 500 Internal Server Error - Response: Could not read error response"
    );
}

#[test]
fn a_download_that_succeeds_takes_six_steps() {
    let state = begin();
    assert_eq!(state, FetchState::Idle);
    let (state, action) = step(state, FetchEvent::Started);
    assert_eq!(state, FetchState::BuildingClient);
    assert_eq!(action, FetchAction::BuildClient { accept_invalid_certs: true });
    let (state, action) = step(state, FetchEvent::ClientBuilt(Ok(())));
    assert_eq!(state, FetchState::Sending);
    assert_eq!(action, FetchAction::Send { request: prepare_request(&request()) });
    let (state, action) = step(state, FetchEvent::Responded(Ok(status(200))));
    assert_eq!(state, FetchState::CreatingFile);
    assert_eq!(action, FetchAction::CreateFile { path: "/library/a.cbz".to_string() });
    let (state, action) = step(state, FetchEvent::FileCreated(Ok(())));
    assert_eq!(state, FetchState::ReadingBody);
    assert_eq!(action, FetchAction::ReadBody);
    let (state, action) = step(state, FetchEvent::BodyRead(Ok(vec![1, 2, 3, 255])));
    assert_eq!(state, FetchState::Writing);
    assert_eq!(action, FetchAction::Write { contents: vec![1, 2, 3, 255] });
    let (state, action) = step(state, FetchEvent::Written(Ok(())));
    assert_eq!(state, FetchState::Finished);
    assert_eq!(action, FetchAction::Finish { outcome: Ok(()) });
}

#[test]
fn every_success_status_leads_to_the_file() {
    for code in [200, 201, 204, 299] {
        let (state, _) = step(FetchState::Sending, FetchEvent::Responded(Ok(status(code))));
        assert_eq!(state, FetchState::CreatingFile);
    }
    for code in [100, 199, 300, 301, 400, 404, 500, 999] {
        let (state, action) = step(FetchState::Sending, FetchEvent::Responded(Ok(status(code))));
        assert_eq!(state, FetchState::ReadingRejection { status: status(code) });
        assert_eq!(action, FetchAction::ReadRejection);
    }
}

#[test]
fn each_failing_step_ends_the_download_with_its_own_error() {
    let cause = || "boom".to_string();
    assert_eq!(
        failure(FetchState::BuildingClient, FetchEvent::ClientBuilt(Err(cause()))),
        FetchError::Transport { stage: TransportStage::ClientBuild, cause: cause() }
    );
    assert_eq!(
        failure(FetchState::Sending, FetchEvent::Responded(Err(cause()))),
        FetchError::Transport { stage: TransportStage::Send, cause: cause() }
    );
    assert_eq!(
        failure(FetchState::CreatingFile, FetchEvent::FileCreated(Err(cause()))),
        FetchError::LocalIo {
            operation: FileOperation::Create,
            path: "/library/a.cbz".to_string(),
            cause: cause(),
        }
    );
    assert_eq!(
        failure(FetchState::ReadingBody, FetchEvent::BodyRead(Err(cause()))),
        FetchError::Transport { stage: TransportStage::ReadBody, cause: cause() }
    );
    assert_eq!(
        failure(FetchState::Writing, FetchEvent::Written(Err(cause()))),
        FetchError::LocalIo {
            operation: FileOperation::Write,
            path: "/library/a.cbz".to_string(),
            cause: cause(),
        }
    );
}

#[test]
fn an_event_out_of_turn_is_refused() {
    assert_eq!(advance(&request(), FetchState::Idle, FetchEvent::ClientBuilt(Ok(()))), None);
    assert_eq!(advance(&request(), FetchState::Sending, FetchEvent::Started), None);
    assert_eq!(advance(&request(), FetchState::Writing, FetchEvent::BodyRead(Ok(vec![]))), None);
    assert_eq!(advance(&request(), FetchState::CreatingFile, FetchEvent::Written(Ok(()))), None);
    assert_eq!(advance(&request(), FetchState::Finished, FetchEvent::Started), None);
    assert_eq!(advance(&request(), FetchState::Finished, FetchEvent::Written(Ok(()))), None);
    assert_eq!(
        advance(&request(), FetchState::ReadingBody, FetchEvent::RejectionRead(None)),
        None
    );
}
