use comic_ingest::fetch::bearer_credential;
use comic_ingest::fetch::prepare_request;
use comic_ingest::fetch::FetchError;
use comic_ingest::fetch::FetchRequest;
use comic_ingest::fetch::FileOperation;
use comic_ingest::fetch::Header;
use comic_ingest::fetch::HttpMethod;
use comic_ingest::fetch::ProviderMode;
use comic_ingest::fetch::TransportStage;
use comic_ingest::status::HttpStatus;

fn request(token: Option<&str>, mode: Option<&str>, target: Option<&str>) -> FetchRequest {
    FetchRequest::new(
        "https://example.test/file.cbz".to_string(),
        "/tmp/file.cbz".to_string(),
        token.map(|t| t.to_string()),
        mode.map(|m| m.to_string()),
        target.map(|t| t.to_string()),
    )
}

fn header(name: &str, value: &str) -> Header {
    Header { name: name.to_string(), value: value.to_string() }
}

#[test]
fn generic_request_with_token_is_a_get_with_bearer_header() {
    let prepared = prepare_request(&request(Some("abc123"), Some("generic"), None));
    assert_eq!(prepared.method, HttpMethod::Get);
    assert_eq!(prepared.url, "https://example.test/file.cbz");
    assert_eq!(prepared.headers, vec![header("Authorization", "Bearer abc123")]);
}

#[test]
fn absent_mode_is_generic_and_without_token_has_no_headers() {
    let framed = request(None, None, None);
    assert_eq!(framed.provider_mode, ProviderMode::Generic);
    let prepared = prepare_request(&framed);
    assert_eq!(prepared.method, HttpMethod::Get);
    assert!(prepared.headers.is_empty());
}

#[test]
fn generic_request_ignores_the_target() {
    let prepared = prepare_request(&request(Some("t"), None, Some("/comics/a.cbz")));
    assert_eq!(prepared.method, HttpMethod::Get);
    assert_eq!(prepared.headers, vec![header("Authorization", "Bearer t")]);
}

#[test]
fn dropbox_request_is_a_post_with_bearer_and_path_argument() {
    let prepared = prepare_request(&request(Some("tok"), Some("dropbox"), Some("/comics/a.cbz")));
    assert_eq!(prepared.method, HttpMethod::Post);
    assert_eq!(prepared.url, "https://example.test/file.cbz");
    assert_eq!(
        prepared.headers,
        vec![
            header("Authorization", "Bearer tok"),
            header("Dropbox-API-Arg", "{\"path\":\"/comics/a.cbz\"}"),
        ]
    );
}

#[test]
fn dropbox_request_without_token_and_target_uses_empty_texts() {
    let prepared = prepare_request(&request(None, Some("dropbox"), None));
    assert_eq!(prepared.method, HttpMethod::Post);
    assert_eq!(
        prepared.headers,
        vec![header("Authorization", "Bearer "), header("Dropbox-API-Arg", "{\"path\":\"\"}")]
    );
}

#[test]
fn dropbox_argument_escapes_quotes_backslashes_and_controls() {
    let target = "a\"b\\c\nd\te\u{8}f\u{c}g\rh\u{1}i\u{1f}j";
    let prepared = prepare_request(&request(None, Some("dropbox"), Some(target)));
    assert_eq!(
        prepared.headers[1].value,
        "{\"path\":\"a\\\"b\\\\c\\nd\\te\\bf\\fg\\rh\\u0001i\\u001fj\"}"
    );
}

#[test]
fn dropbox_argument_keeps_other_characters_as_they_are() {
    let target = "/マンガ/été/del\u{7f}/x y";
    let prepared = prepare_request(&request(None, Some("dropbox"), Some(target)));
    assert_eq!(prepared.headers[1].value, format!("{{\"path\":\"{}\"}}", target));
}

#[test]
fn only_the_exact_label_selects_dropbox() {
    assert_eq!(ProviderMode::from_label(Some("dropbox")), ProviderMode::Dropbox);
    assert_eq!(ProviderMode::from_label(Some("Dropbox")), ProviderMode::Generic);
    assert_eq!(ProviderMode::from_label(Some("dropbox ")), ProviderMode::Generic);
    assert_eq!(ProviderMode::from_label(Some("generic")), ProviderMode::Generic);
    assert_eq!(ProviderMode::from_label(Some("")), ProviderMode::Generic);
    assert_eq!(ProviderMode::from_label(None), ProviderMode::Generic);
}

#[test]
fn request_keeps_what_it_was_given() {
    let framed = request(Some("tok"), Some("dropbox"), Some("/x"));
    assert_eq!(framed.url, "https://example.test/file.cbz");
    assert_eq!(framed.destination_path, "/tmp/file.cbz");
    assert_eq!(framed.auth_token, Some("tok".to_string()));
    assert_eq!(framed.provider_mode, ProviderMode::Dropbox);
    assert_eq!(framed.provider_target, Some("/x".to_string()));
}

#[test]
fn bearer_credential_prefixes_the_token() {
    assert_eq!(bearer_credential("abc"), "Bearer abc");
    assert_eq!(bearer_credential(""), "Bearer ");
}

#[test]
fn fetch_messages_name_the_kind_and_the_cause() {
    let cause = "boom".to_string();
    let transport = |stage| FetchError::Transport { stage, cause: cause.clone() };
    assert_eq!(transport(TransportStage::ClientBuild).message(), "Client build error: boom");
    assert_eq!(transport(TransportStage::Send).message(), "Request error: boom");
    assert_eq!(transport(TransportStage::ReadBody).message(), "Reading response error: boom");
    let local = |operation| FetchError::LocalIo {
        operation,
        path: "/tmp/x".to_string(),
        cause: cause.clone(),
    };
    assert_eq!(local(FileOperation::Create).message(), "File creation error: boom");
    assert_eq!(local(FileOperation::Write).message(), "File write error: boom");
    let rejected = FetchError::RemoteRejected {
        status: HttpStatus::from_code(503).unwrap(),
        body_text: "later".to_string(),
    };
    assert_eq!(
        rejected.message(),
        "Failed to download file: HTTP 503 Service Unavailable - Response: later"
    );
}
