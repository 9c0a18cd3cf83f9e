//! Request framing for a download, and the decisions taken while it runs.
//!
//! A download is one network exchange and one local write. This module does
//! neither: it says how the request is framed, and it is a state machine that
//! tells its driver what to do next and takes each outcome back as an event.

use crate::json::needs_escape;
use crate::json::object_text;
use crate::json::single_member_object;
use crate::status::status_line_text;
use crate::status::HttpStatus;
use vstd::prelude::*;

verus! {

/// How a request is framed for the remote end.
#[derive(Debug, Clone, Copy, PartialEq, Eq)]
pub enum ProviderMode {
    /// A plain GET, with a bearer credential where a token is given.
    Generic,
    /// A POST to the Dropbox content API.
    Dropbox,
}

/// The mode that a label selects: `dropbox` selects the Dropbox framing, any
/// other label, or none, the generic one.
pub open spec fn mode_of_label(label: Option<Seq<char>>) -> ProviderMode {
    if label == Some("dropbox"@) {
        ProviderMode::Dropbox
    } else {
        ProviderMode::Generic
    }
}

impl ProviderMode {
    /// The mode that `label` selects.
    pub fn from_label(label: Option<&str>) -> (mode: ProviderMode)
        ensures
            mode == mode_of_label(
                match label {
                    Some(l) => Some(l@),
                    None => None,
                },
            ),
    {
        match label {
            Some(l) => {
                let given: String = l.to_owned();
                let dropbox: String = "dropbox".to_owned();
                if given == dropbox {
                    ProviderMode::Dropbox
                } else {
                    ProviderMode::Generic
                }
            },
            None => ProviderMode::Generic,
        }
    }
}

/// What to fetch, where to put it, and how to ask for it.
#[derive(Debug, Clone, PartialEq, Eq)]
pub struct FetchRequest {
    pub url: String,
    pub destination_path: String,
    pub auth_token: Option<String>,
    pub provider_mode: ProviderMode,
    pub provider_target: Option<String>,
}

/// A `FetchRequest` as plain text.
pub struct FetchRequestModel {
    pub url: Seq<char>,
    pub destination_path: Seq<char>,
    pub auth_token: Option<Seq<char>>,
    pub provider_mode: ProviderMode,
    pub provider_target: Option<Seq<char>>,
}

/// The text that an optional string holds.
pub open spec fn optional_text(text: Option<String>) -> Option<Seq<char>> {
    match text {
        Some(t) => Some(t@),
        None => None,
    }
}

impl View for FetchRequest {
    type V = FetchRequestModel;

    open spec fn view(&self) -> FetchRequestModel {
        FetchRequestModel {
            url: self.url@,
            destination_path: self.destination_path@,
            auth_token: optional_text(self.auth_token),
            provider_mode: self.provider_mode,
            provider_target: optional_text(self.provider_target),
        }
    }
}

impl FetchRequest {
    /// A request for `url` into `destination_path`; `mode` is the label of the
    /// provider, and no label means the generic framing.
    pub fn new(
        url: String,
        destination_path: String,
        auth_token: Option<String>,
        mode: Option<String>,
        provider_target: Option<String>,
    ) -> (request: FetchRequest)
        ensures
            request@ == (FetchRequestModel {
                url: url@,
                destination_path: destination_path@,
                auth_token: optional_text(auth_token),
                provider_mode: mode_of_label(optional_text(mode)),
                provider_target: optional_text(provider_target),
            }),
    {
        let provider_mode = match &mode {
            Some(label) => ProviderMode::from_label(Some(label.as_str())),
            None => ProviderMode::from_label(None),
        };
        FetchRequest { url, destination_path, auth_token, provider_mode, provider_target }
    }
}

/// The method of an outgoing request.
#[derive(Debug, Clone, Copy, PartialEq, Eq)]
pub enum HttpMethod {
    Get,
    Post,
}

/// One header of an outgoing request.
#[derive(Debug, Clone, PartialEq, Eq)]
pub struct Header {
    pub name: String,
    pub value: String,
}

/// A `Header` as plain text.
pub struct HeaderModel {
    pub name: Seq<char>,
    pub value: Seq<char>,
}

impl View for Header {
    type V = HeaderModel;

    open spec fn view(&self) -> HeaderModel {
        HeaderModel { name: self.name@, value: self.value@ }
    }
}

/// A request ready to be sent: method, address and headers in order.
#[derive(Debug, Clone, PartialEq, Eq)]
pub struct PreparedRequest {
    pub method: HttpMethod,
    pub url: String,
    pub headers: Vec<Header>,
}

/// A `PreparedRequest` as plain text.
pub struct PreparedRequestModel {
    pub method: HttpMethod,
    pub url: Seq<char>,
    pub headers: Seq<HeaderModel>,
}

impl View for PreparedRequest {
    type V = PreparedRequestModel;

    open spec fn view(&self) -> PreparedRequestModel {
        PreparedRequestModel {
            method: self.method,
            url: self.url@,
            headers: self.headers@.map_values(|h: Header| h@),
        }
    }
}

/// The value of an authorization header that carries `token` as a bearer
/// credential.
pub open spec fn bearer_text(token: Seq<char>) -> Seq<char> {
    "Bearer "@ + token
}

/// The text of an optional string, or the empty text where there is none.
pub open spec fn text_or_empty(text: Option<Seq<char>>) -> Seq<char> {
    match text {
        Some(t) => t,
        None => Seq::empty(),
    }
}

/// The authorization header for `token`.
pub open spec fn authorization_header(token: Seq<char>) -> HeaderModel {
    HeaderModel { name: "Authorization"@, value: bearer_text(token) }
}

/// The header that tells Dropbox which remote path is meant: a JSON object
/// whose member `path` is the target.
pub open spec fn dropbox_argument_header(target: Seq<char>) -> HeaderModel {
    HeaderModel { name: "Dropbox-API-Arg"@, value: object_text("path"@, target) }
}

/// The request that goes out for `request`.
///
/// Generic mode is a GET, with an authorization header exactly when a token
/// is given. Dropbox mode is a POST that always carries an authorization
/// header, with an empty token where none is given, and after it the header
/// that names the target, empty where none is given.
pub open spec fn framed(request: FetchRequestModel) -> PreparedRequestModel {
    match request.provider_mode {
        ProviderMode::Generic => PreparedRequestModel {
            method: HttpMethod::Get,
            url: request.url,
            headers: match request.auth_token {
                Some(token) => seq![authorization_header(token)],
                None => Seq::empty(),
            },
        },
        ProviderMode::Dropbox => PreparedRequestModel {
            method: HttpMethod::Post,
            url: request.url,
            headers: seq![
                authorization_header(text_or_empty(request.auth_token)),
                dropbox_argument_header(text_or_empty(request.provider_target)),
            ],
        },
    }
}

/// The value of an authorization header for `token`.
pub fn bearer_credential(token: &str) -> (value: String)
    ensures
        value@ == bearer_text(token@),
{
    let mut value: String = "Bearer ".to_owned();
    value.append(token);
    value
}

/// Frames the outgoing request for `request`.
pub fn prepare_request(request: &FetchRequest) -> (prepared: PreparedRequest)
    ensures
        prepared@ == framed(request@),
{
    let url: String = request.url.clone();
    let mut headers: Vec<Header> = Vec::new();
    match request.provider_mode {
        ProviderMode::Generic => {
            match &request.auth_token {
                Some(token) => {
                    headers.push(
                        Header {
                            name: "Authorization".to_owned(),
                            value: bearer_credential(token.as_str()),
                        },
                    );
                },
                None => {},
            }
            let prepared = PreparedRequest { method: HttpMethod::Get, url, headers };
            assert(prepared@.headers =~= framed(request@).headers);
            prepared
        },
        ProviderMode::Dropbox => {
            proof {
                reveal_strlit("");
            }
            let token: &str = match &request.auth_token {
                Some(text) => text.as_str(),
                None => "",
            };
            let target: &str = match &request.provider_target {
                Some(text) => text.as_str(),
                None => "",
            };
            assert(token@ =~= text_or_empty(request@.auth_token));
            assert(target@ =~= text_or_empty(request@.provider_target));
            headers.push(
                Header { name: "Authorization".to_owned(), value: bearer_credential(token) },
            );
            headers.push(
                Header {
                    name: "Dropbox-API-Arg".to_owned(),
                    value: single_member_object("path", target),
                },
            );
            let prepared = PreparedRequest { method: HttpMethod::Post, url, headers };
            assert(prepared@.headers =~= framed(request@).headers);
            prepared
        },
    }
}

/// In generic mode the request is a GET to the given address. With a token
/// it carries one header, the bearer credential of that token; without a
/// token it carries none.
pub proof fn lemma_generic_framing(request: FetchRequestModel)
    requires
        request.provider_mode == ProviderMode::Generic,
    ensures
        framed(request).method == HttpMethod::Get,
        framed(request).url == request.url,
        request.auth_token matches Some(token) ==> framed(request).headers == seq![
            HeaderModel { name: "Authorization"@, value: "Bearer "@ + token },
        ],
        request.auth_token is None ==> framed(request).headers.len() == 0,
{
}

/// In Dropbox mode the request is a POST to the given address with two
/// headers: the bearer credential of the token, of the empty token where none
/// is given, and the JSON object that names the target, the empty target
/// where none is given.
pub proof fn lemma_dropbox_framing(request: FetchRequestModel)
    requires
        request.provider_mode == ProviderMode::Dropbox,
    ensures
        framed(request).method == HttpMethod::Post,
        framed(request).url == request.url,
        framed(request).headers.len() == 2,
        framed(request).headers[0] == (HeaderModel {
            name: "Authorization"@,
            value: "Bearer "@ + text_or_empty(request.auth_token),
        }),
        framed(request).headers[1] == (HeaderModel {
            name: "Dropbox-API-Arg"@,
            value: object_text("path"@, text_or_empty(request.provider_target)),
        }),
{
}

/// For a target without a quote, a backslash or a control character, the
/// JSON object that names it is `{"path":"` followed by the target and `"}`.
pub proof fn lemma_dropbox_argument_of_plain_target(target: Seq<char>)
    requires
        forall|i: int| 0 <= i < target.len() ==> !needs_escape(#[trigger] target[i]),
    ensures
        dropbox_argument_header(target).value == "{\"path\":\""@ + target + "\"}"@,
{
    reveal_strlit("path");
    reveal_strlit("{\"path\":\"");
    reveal_strlit("\"}");
    crate::json::lemma_plain_text_is_unescaped(target);
    let key = "path"@;
    assert(key =~= seq!['p', 'a', 't', 'h']);
    assert forall|i: int| 0 <= i < key.len() implies !needs_escape(#[trigger] key[i]) by {}
    crate::json::lemma_plain_text_is_unescaped(key);
    assert(object_text(key, target) =~= "{\"path\":\""@ + target + "\"}"@);
}

/// The step of a download at which the transport failed.
#[derive(Debug, Clone, Copy, PartialEq, Eq)]
pub enum TransportStage {
    /// The client could not be built.
    ClientBuild,
    /// The request could not be sent.
    Send,
    /// The body of the response could not be read.
    ReadBody,
}

/// The local operation that failed.
#[derive(Debug, Clone, Copy, PartialEq, Eq)]
pub enum FileOperation {
    /// The destination file could not be created.
    Create,
    /// The body could not be written to the destination file.
    Write,
}

/// Why a download failed.
#[derive(Debug, Clone, PartialEq, Eq)]
pub enum FetchError {
    /// The transport failed; `cause` is what it reported.
    Transport { stage: TransportStage, cause: String },
    /// The remote end answered with a status that is no success.
    RemoteRejected { status: HttpStatus, body_text: String },
    /// A local file operation on `path` failed; `cause` is what it reported.
    LocalIo { operation: FileOperation, path: String, cause: String },
}

/// A `FetchError` as plain text.
pub enum FetchErrorModel {
    Transport { stage: TransportStage, cause: Seq<char> },
    RemoteRejected { status: HttpStatus, body_text: Seq<char> },
    LocalIo { operation: FileOperation, path: Seq<char>, cause: Seq<char> },
}

impl View for FetchError {
    type V = FetchErrorModel;

    open spec fn view(&self) -> FetchErrorModel {
        match *self {
            FetchError::Transport { stage, cause } => FetchErrorModel::Transport {
                stage,
                cause: cause@,
            },
            FetchError::RemoteRejected { status, body_text } => FetchErrorModel::RemoteRejected {
                status,
                body_text: body_text@,
            },
            FetchError::LocalIo { operation, path, cause } => FetchErrorModel::LocalIo {
                operation,
                path: path@,
                cause: cause@,
            },
        }
    }
}

/// The words that open the message of a transport failure.
pub open spec fn transport_prefix(stage: TransportStage) -> Seq<char> {
    match stage {
        TransportStage::ClientBuild => "Client build error: "@,
        TransportStage::Send => "Request error: "@,
        TransportStage::ReadBody => "Reading response error: "@,
    }
}

/// The words that open the message of a local failure.
pub open spec fn io_prefix(operation: FileOperation) -> Seq<char> {
    match operation {
        FileOperation::Create => "File creation error: "@,
        FileOperation::Write => "File write error: "@,
    }
}

/// The one message that a failed download shows: the kind of failure, then
/// its cause, or the status line and the body of a rejection.
pub open spec fn message_text(error: FetchErrorModel) -> Seq<char> {
    match error {
        FetchErrorModel::Transport { stage, cause } => transport_prefix(stage) + cause,
        FetchErrorModel::RemoteRejected { status, body_text } => "Failed to download file: HTTP "@
            + status_line_text(status.value()) + " - Response: "@ + body_text,
        FetchErrorModel::LocalIo { operation, path, cause } => io_prefix(operation) + cause,
    }
}

impl FetchError {
    /// The message that this failure shows.
    pub fn message(&self) -> (text: String)
        ensures
            text@ == message_text(self@),
    {
        match self {
            FetchError::Transport { stage, cause } => {
                let mut text: String = match stage {
                    TransportStage::ClientBuild => "Client build error: ".to_owned(),
                    TransportStage::Send => "Request error: ".to_owned(),
                    TransportStage::ReadBody => "Reading response error: ".to_owned(),
                };
                text.append(cause.as_str());
                text
            },
            FetchError::RemoteRejected { status, body_text } => {
                let mut text: String = "Failed to download file: HTTP ".to_owned();
                let line: String = status.line();
                text.append(line.as_str());
                text.append(" - Response: ");
                text.append(body_text.as_str());
                text
            },
            FetchError::LocalIo { operation, path, cause } => {
                let mut text: String = match operation {
                    FileOperation::Create => "File creation error: ".to_owned(),
                    FileOperation::Write => "File write error: ".to_owned(),
                };
                text.append(cause.as_str());
                text
            },
        }
    }
}

} // verus!
