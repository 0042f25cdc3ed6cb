//! The protocol of the service: how each request is built and how each reply
//! is read. Nothing here touches the network: a request is a value that the
//! caller sends, and a reply is a value that the caller hands back.

use crate::auth::AuthConfig;
use crate::json::{json_document, parse_json, Json};
use crate::signature::{sign, signature_of, Params};
use crate::text::{decimal, decimal_text, parse_i64, parsed_i64};
use crate::xml::{read_xml, xml_reading, XmlElement, XmlTree};
use vstd::prelude::*;
use vstd::string::*;
use vstd::utf8::*;

verus! {

/// The host of the service.
pub const AUDIOSCROBBLER_HOST: &'static str = "https://ws.audioscrobbler.com";

/// What went wrong with a call of the service.
#[derive(Debug)]
pub enum ApiError {
    /// The exchange failed, or the service answered with an error status.
    Generic(String),
    /// The reply is no JSON of the expected shape.
    Json,
    /// The reply is no XML of the expected shape.
    Parse(String),
    /// The service took the scrobble and ignored the track; the words give
    /// its reason.
    Unscrobbled(String),
    /// The service knows the album and lists no tracks for it.
    EmptyAlbum,
}

/// The model of an [`ApiError`].
pub enum Failure {
    Generic(Seq<char>),
    Json,
    Parse(Seq<char>),
    Unscrobbled(Seq<char>),
    EmptyAlbum,
}

impl View for ApiError {
    type V = Failure;

    open spec fn view(&self) -> Failure {
        match self {
            ApiError::Generic(message) => Failure::Generic(message@),
            ApiError::Json => Failure::Json,
            ApiError::Parse(message) => Failure::Parse(message@),
            ApiError::Unscrobbled(reason) => Failure::Unscrobbled(reason@),
            ApiError::EmptyAlbum => Failure::EmptyAlbum,
        }
    }
}

/// The words of a failure.
pub open spec fn failure_message(failure: Failure) -> Seq<char> {
    match failure {
        Failure::Generic(message) => "generic: "@ + message,
        Failure::Json => "json error"@,
        Failure::Parse(message) => "parse error: "@ + message,
        Failure::Unscrobbled(reason) => "unscrobbled: "@ + reason,
        Failure::EmptyAlbum => "unscrobbled: Empty album"@,
    }
}

impl ApiError {
    /// The error in words.
    pub fn message(&self) -> (words: String)
        ensures
            words@ == failure_message(self@),
    {
        match self {
            ApiError::Generic(message) => String::from_str("generic: ").concat(message.as_str()),
            ApiError::Json => String::from_str("json error"),
            ApiError::Parse(message) => String::from_str("parse error: ").concat(message.as_str()),
            ApiError::Unscrobbled(reason) => String::from_str("unscrobbled: ").concat(
                reason.as_str(),
            ),
            ApiError::EmptyAlbum => String::from_str("unscrobbled: Empty album"),
        }
    }
}

/// A track of an album.
#[derive(Debug)]
pub struct Track {
    pub title: String,
    /// The playing time in seconds.
    pub duration: i64,
}

/// The model of a [`Track`].
pub struct TrackModel {
    pub title: Seq<char>,
    pub duration: int,
}

impl View for Track {
    type V = TrackModel;

    open spec fn view(&self) -> TrackModel {
        TrackModel { title: self.title@, duration: self.duration as int }
    }
}

/// An album with its tracks in their canonical order.
#[derive(Debug)]
pub struct Album {
    pub title: String,
    pub tracks: Vec<Track>,
    pub url: Option<String>,
}

/// The model of an [`Album`].
pub struct AlbumModel {
    pub title: Seq<char>,
    pub tracks: Seq<TrackModel>,
    pub url: Option<Seq<char>>,
}

/// The models of a list of tracks.
pub open spec fn track_models(tracks: Seq<Track>) -> Seq<TrackModel> {
    tracks.map_values(|track: Track| track@)
}

impl View for Album {
    type V = AlbumModel;

    open spec fn view(&self) -> AlbumModel {
        AlbumModel {
            title: self.title@,
            tracks: track_models(self.tracks@),
            url: match self.url {
                Some(url) => Some(url@),
                None => None,
            },
        }
    }
}

/// What is sent with a request.
#[derive(Debug)]
pub enum RequestBody {
    /// Nothing.
    Empty,
    /// The parameters as a form.
    Form(Params),
}

/// A request to the service. Every request is a POST.
#[derive(Debug)]
pub struct HttpRequest {
    pub url: String,
    pub body: RequestBody,
}

/// How an exchange with the service ended.
#[derive(Debug)]
pub enum HttpReply {
    /// The exchange could not be carried out; the words say why.
    Failed(String),
    /// The service answered, with this status code and this body.
    Answered { status: u16, body: String },
}

/// Whether a status code stands for a success: the codes from 200 to 299.
pub open spec fn is_success(status: u16) -> bool {
    200 <= status < 300
}

/// The client side of the protocol, for one user and one host.
#[derive(Debug)]
pub struct LastfmApi {
    pub auth_config: AuthConfig,
    pub api_host: String,
}

/// The parameters of a session request, before they are signed.
pub open spec fn session_params(api_key: Seq<char>, token: Seq<char>) -> Map<Seq<char>, Seq<char>> {
    Map::<Seq<char>, Seq<char>>::empty().insert("api_key"@, api_key).insert(
        "method"@,
        "auth.getSession"@,
    ).insert("token"@, token)
}

/// The parameters of a scrobble, before they are signed.
pub open spec fn scrobble_params(
    api_key: Seq<char>,
    session_key: Seq<char>,
    artist: Seq<char>,
    track: Seq<char>,
    when: int,
) -> Map<Seq<char>, Seq<char>> {
    Map::<Seq<char>, Seq<char>>::empty().insert("api_key"@, api_key).insert(
        "method"@,
        "track.scrobble"@,
    ).insert("artist"@, artist).insert("track"@, track).insert(
        "timestamp"@,
        decimal_text(when),
    ).insert("sk"@, session_key)
}

/// A parameter set with its signature under `secret` added as `api_sig`.
pub open spec fn signed(params: Map<Seq<char>, Seq<char>>, secret: Seq<char>) -> Map<
    Seq<char>,
    Seq<char>,
> {
    params.insert("api_sig"@, signature_of(params, secret))
}

/// Adds to a parameter set its signature under `secret`.
pub fn add_signature(params: Params, secret: &str) -> (with_signature: Params)
    ensures
        with_signature@ == signed(params@, secret@),
{
    let signature = sign(&params, secret);
    params.with("api_sig", signature)
}

impl LastfmApi {
    /// A client for the given credentials and host.
    pub fn new(auth_config: AuthConfig, api_host: String) -> (api: LastfmApi)
        ensures
            api.auth_config == auth_config,
            api.api_host == api_host,
    {
        LastfmApi { auth_config, api_host }
    }

    /// The address that signed requests are posted to.
    fn endpoint(&self) -> (url: String)
        ensures
            url@ == self.api_host@ + "/2.0"@,
    {
        let mut url = self.api_host.clone();
        url.append("/2.0");
        url
    }

    /// The request for a request token. It is not signed.
    pub fn token_request(&self) -> (request: HttpRequest)
        ensures
            request.url@ == self.api_host@ + "/2.0/?method=auth.gettoken&api_key="@
                + self.auth_config.api_key@ + "&format=json"@,
            request.body is Empty,
    {
        let mut url = self.api_host.clone();
        url.append("/2.0/?method=auth.gettoken&api_key=");
        url.append(self.auth_config.api_key.as_str());
        url.append("&format=json");
        HttpRequest { url, body: RequestBody::Empty }
    }

    /// The signed request that exchanges a request token for a session key.
    pub fn session_request(&self, request_token: String) -> (request: HttpRequest)
        ensures
            request.url@ == self.api_host@ + "/2.0"@,
            request.body matches RequestBody::Form(params) && params@ == signed(
                session_params(self.auth_config.api_key@, request_token@),
                self.auth_config.secret_key@,
            ),
    {
        let params = Params::new().with("api_key", self.auth_config.api_key.clone()).with(
            "method",
            String::from_str("auth.getSession"),
        ).with("token", request_token);
        let params = add_signature(params, self.auth_config.secret_key.as_str());
        HttpRequest { url: self.endpoint(), body: RequestBody::Form(params) }
    }

    /// The signed request that scrobbles one track as played at `when`, in
    /// seconds of Unix time.
    pub fn scrobble_request(&self, artist: String, track: String, when: i64) -> (request:
        HttpRequest)
        ensures
            request.url@ == self.api_host@ + "/2.0"@,
            request.body matches RequestBody::Form(params) && params@ == signed(
                scrobble_params(
                    self.auth_config.api_key@,
                    self.auth_config.session_key@,
                    artist@,
                    track@,
                    when as int,
                ),
                self.auth_config.secret_key@,
            ),
    {
        let params = Params::new().with("api_key", self.auth_config.api_key.clone()).with(
            "method",
            String::from_str("track.scrobble"),
        ).with("artist", artist).with("track", track).with("timestamp", decimal(when)).with(
            "sk",
            self.auth_config.session_key.clone(),
        );
        let params = add_signature(params, self.auth_config.secret_key.as_str());
        HttpRequest { url: self.endpoint(), body: RequestBody::Form(params) }
    }
}

/// What a reply says before its body is read: the failure of an exchange
/// that was not carried out, with the words of the caller, or that was
/// answered with a status other than a success, with the raw body.
pub open spec fn refusal(reply: HttpReply) -> Option<Failure> {
    match reply {
        HttpReply::Failed(message) => Some(Failure::Generic(message@)),
        HttpReply::Answered { status, body } => if is_success(status) {
            None
        } else {
            Some(Failure::Generic(body@))
        },
    }
}

/// The body of a reply, where there is one.
pub open spec fn body_of(reply: HttpReply) -> Seq<char> {
    match reply {
        HttpReply::Failed(_) => Seq::empty(),
        HttpReply::Answered { body, .. } => body@,
    }
}

/// The body of a successful reply.
pub fn accepted_body(reply: &HttpReply) -> (body: Result<&str, ApiError>)
    ensures
        match body {
            Ok(text) => refusal(*reply) is None && text@ == body_of(*reply),
            Err(error) => refusal(*reply) == Some(error@),
        },
{
    match reply {
        HttpReply::Failed(message) => Err(ApiError::Generic(message.clone())),
        HttpReply::Answered { status, body } => {
            if 200 <= *status && *status < 300 {
                Ok(body.as_str())
            } else {
                Err(ApiError::Generic(body.clone()))
            }
        },
    }
}

/// The model of a result that holds a text.
pub open spec fn text_result(result: Result<String, ApiError>) -> Result<Seq<char>, Failure> {
    match result {
        Ok(text) => Ok(text@),
        Err(error) => Err(error@),
    }
}

/// The request token that a document holds: the text of its member `token`.
pub open spec fn token_of(document: Json) -> Result<Seq<char>, Failure> {
    match document.member("token"@) {
        Some(token) => match token.text() {
            Some(text) => Ok(text),
            None => Err(Failure::Json),
        },
        None => Err(Failure::Json),
    }
}

/// What the reply to a token request gives.
pub open spec fn token_reply(reply: HttpReply) -> Result<Seq<char>, Failure> {
    match refusal(reply) {
        Some(failure) => Err(failure),
        None => match json_document(body_of(reply)) {
            Some(document) => token_of(document),
            None => Err(Failure::Json),
        },
    }
}

/// The request token that a document holds.
pub fn token_from_json(document: &Json) -> (token: Result<String, ApiError>)
    ensures
        text_result(token) == token_of(*document),
{
    match document.get("token") {
        Some(token) => match token.as_str() {
            Some(text) => Ok(text.to_owned()),
            None => Err(ApiError::Json),
        },
        None => Err(ApiError::Json),
    }
}

/// The element of a name in a reply: the root of the document where it
/// bears the name, else the first child of the root that does. The service
/// wraps what it answers in an envelope element.
pub open spec fn answer_element(root: XmlTree, name: Seq<char>) -> Option<XmlTree> {
    if root.name == name {
        Some(root)
    } else {
        root.child(name)
    }
}

/// The element of a name in a reply.
pub fn find_answer<'a>(root: &'a XmlElement, name: &str) -> (found: Option<&'a XmlElement>)
    ensures
        match found {
            Some(element) => answer_element(root@, name@) == Some(element@),
            None => answer_element(root@, name@) is None,
        },
{
    if crate::text::str_eq(root.name.as_str(), name) {
        Some(root)
    } else {
        root.get_child(name)
    }
}

/// The session key that a document holds: the text of the element `key`
/// in the element `session`.
pub open spec fn session_key_of(root: XmlTree) -> Result<Seq<char>, Failure> {
    match answer_element(root, "session"@) {
        None => Err(Failure::Parse("xml tag session"@)),
        Some(session) => match session.child("key"@) {
            None => Err(Failure::Parse("xml tag key"@)),
            Some(key) => match key.text() {
                None => Err(Failure::Parse("xml text"@)),
                Some(text) => Ok(text),
            },
        },
    }
}

/// What the reply to a session request gives.
pub open spec fn session_reply(reply: HttpReply) -> Result<Seq<char>, Failure> {
    match refusal(reply) {
        Some(failure) => Err(failure),
        None => match xml_reading(body_of(reply)) {
            Ok(root) => session_key_of(root),
            Err(message) => Err(Failure::Parse(message)),
        },
    }
}

/// The session key that a document holds.
pub fn session_key_from_xml(root: &XmlElement) -> (key: Result<String, ApiError>)
    ensures
        text_result(key) == session_key_of(root@),
{
    match find_answer(root, "session") {
        None => Err(ApiError::Parse(String::from_str("xml tag session"))),
        Some(session) => match session.get_child("key") {
            None => Err(ApiError::Parse(String::from_str("xml tag key"))),
            Some(key) => match key.get_text() {
                None => Err(ApiError::Parse(String::from_str("xml text"))),
                Some(text) => Ok(text),
            },
        },
    }
}

/// How the service took a scrobble.
#[derive(Debug)]
pub enum ScrobbleOutcome {
    /// The play was recorded.
    Accepted,
    /// The service declined to record the play.
    Ignored { code: String, text: String },
}

/// The model of a [`ScrobbleOutcome`].
pub enum OutcomeModel {
    Accepted,
    Ignored { code: Seq<char>, text: Seq<char> },
}

impl View for ScrobbleOutcome {
    type V = OutcomeModel;

    open spec fn view(&self) -> OutcomeModel {
        match self {
            ScrobbleOutcome::Accepted => OutcomeModel::Accepted,
            ScrobbleOutcome::Ignored { code, text } => OutcomeModel::Ignored {
                code: code@,
                text: text@,
            },
        }
    }
}

/// The model of a result that holds an outcome.
pub open spec fn outcome_result(result: Result<ScrobbleOutcome, ApiError>) -> Result<
    OutcomeModel,
    Failure,
> {
    match result {
        Ok(outcome) => Ok(outcome@),
        Err(error) => Err(error@),
    }
}

/// The model of a result that holds nothing.
pub open spec fn unit_result(result: Result<(), ApiError>) -> Result<(), Failure> {
    match result {
        Ok(_) => Ok(()),
        Err(error) => Err(error@),
    }
}

/// The count that an attribute of the element `scrobbles` holds.
pub open spec fn count_of(scrobbles: XmlTree, name: Seq<char>, missing: Seq<char>) -> Result<
    i64,
    Failure,
> {
    match scrobbles.attribute(name) {
        None => Err(Failure::Parse(missing)),
        Some(text) => match parsed_i64(text) {
            None => Err(Failure::Parse("integer"@)),
            Some(count) => Ok(count),
        },
    }
}

/// Why a scrobble was ignored: the attribute `code` and the text of the
/// element `ignoredMessage` in the element `scrobble`; the text is empty
/// where the element has none.
pub open spec fn ignored_reason(scrobbles: XmlTree) -> Result<OutcomeModel, Failure> {
    match scrobbles.child("scrobble"@) {
        None => Err(Failure::Parse("xml tag scrobble"@)),
        Some(scrobble) => match scrobble.child("ignoredMessage"@) {
            None => Err(Failure::Parse("xml tag ignoredMessage"@)),
            Some(message) => match message.attribute("code"@) {
                None => Err(Failure::Parse("no code attr"@)),
                Some(code) => Ok(
                    OutcomeModel::Ignored {
                        code,
                        text: match message.text() {
                            Some(text) => text,
                            None => Seq::empty(),
                        },
                    },
                ),
            },
        },
    }
}

/// How the service took a scrobble, by the document of its reply. The
/// element `scrobbles` counts what it accepted and what it ignored: one
/// accepted and none ignored is an acceptance, none accepted and one ignored
/// is a refusal with its reason, and every other pair of counts is no reply
/// of the expected shape.
pub open spec fn scrobble_outcome_of(root: XmlTree) -> Result<OutcomeModel, Failure> {
    match answer_element(root, "scrobbles"@) {
        None => Err(Failure::Parse("xml scrobbles key"@)),
        Some(scrobbles) => match count_of(scrobbles, "accepted"@, "no accepted attr"@) {
            Err(failure) => Err(failure),
            Ok(accepted) => match count_of(scrobbles, "ignored"@, "no ignored attr"@) {
                Err(failure) => Err(failure),
                Ok(ignored) => if accepted == 1 && ignored == 0 {
                    Ok(OutcomeModel::Accepted)
                } else if accepted == 0 && ignored == 1 {
                    ignored_reason(scrobbles)
                } else {
                    Err(Failure::Parse("Wrong response structure"@))
                },
            },
        },
    }
}

/// The error that stands for an ignored scrobble: its code and its text.
pub open spec fn unscrobbled(code: Seq<char>, text: Seq<char>) -> Failure {
    Failure::Unscrobbled(code + ": "@ + text)
}

/// An outcome as the result of a scrobble: an acceptance is a success, a
/// refusal is the error `Unscrobbled` with the reason.
pub open spec fn settled(outcome: Result<OutcomeModel, Failure>) -> Result<(), Failure> {
    match outcome {
        Ok(OutcomeModel::Accepted) => Ok(()),
        Ok(OutcomeModel::Ignored { code, text }) => Err(unscrobbled(code, text)),
        Err(failure) => Err(failure),
    }
}

/// What the text of a reply to a scrobble gives.
pub open spec fn scrobble_response(text: Seq<char>) -> Result<(), Failure> {
    match xml_reading(text) {
        Ok(root) => settled(scrobble_outcome_of(root)),
        Err(message) => Err(Failure::Parse(message)),
    }
}

/// What the reply to a scrobble gives.
pub open spec fn scrobble_reply(reply: HttpReply) -> Result<(), Failure> {
    match refusal(reply) {
        Some(failure) => Err(failure),
        None => scrobble_response(body_of(reply)),
    }
}

/// The count that an attribute of the element `scrobbles` holds.
fn read_count(scrobbles: &XmlElement, name: &str, missing: &str) -> (count: Result<i64, ApiError>)
    ensures
        match count {
            Ok(n) => count_of(scrobbles@, name@, missing@) == Ok::<i64, Failure>(n),
            Err(error) => count_of(scrobbles@, name@, missing@) == Err::<i64, Failure>(error@),
        },
{
    match scrobbles.attribute(name) {
        None => Err(ApiError::Parse(String::from_str(missing))),
        Some(text) => match parse_i64(text.as_str()) {
            None => Err(ApiError::Parse(String::from_str("integer"))),
            Some(count) => Ok(count),
        },
    }
}

/// Why a scrobble was ignored.
fn read_ignored_reason(scrobbles: &XmlElement) -> (outcome: Result<ScrobbleOutcome, ApiError>)
    ensures
        outcome_result(outcome) == ignored_reason(scrobbles@),
{
    match scrobbles.get_child("scrobble") {
        None => Err(ApiError::Parse(String::from_str("xml tag scrobble"))),
        Some(scrobble) => match scrobble.get_child("ignoredMessage") {
            None => Err(ApiError::Parse(String::from_str("xml tag ignoredMessage"))),
            Some(message) => match message.attribute("code") {
                None => Err(ApiError::Parse(String::from_str("no code attr"))),
                Some(code) => {
                    let text = match message.get_text() {
                        Some(text) => text,
                        None => String::new(),
                    };
                    Ok(ScrobbleOutcome::Ignored { code: code.clone(), text })
                },
            },
        },
    }
}

/// How the service took a scrobble, by the document of its reply.
pub fn scrobble_outcome(root: &XmlElement) -> (outcome: Result<ScrobbleOutcome, ApiError>)
    ensures
        outcome_result(outcome) == scrobble_outcome_of(root@),
{
    match find_answer(root, "scrobbles") {
        None => Err(ApiError::Parse(String::from_str("xml scrobbles key"))),
        Some(scrobbles) => {
            let accepted = match read_count(scrobbles, "accepted", "no accepted attr") {
                Ok(count) => count,
                Err(error) => {
                    return Err(error);
                },
            };
            let ignored = match read_count(scrobbles, "ignored", "no ignored attr") {
                Ok(count) => count,
                Err(error) => {
                    return Err(error);
                },
            };
            if accepted == 1 && ignored == 0 {
                Ok(ScrobbleOutcome::Accepted)
            } else if accepted == 0 && ignored == 1 {
                read_ignored_reason(scrobbles)
            } else {
                Err(ApiError::Parse(String::from_str("Wrong response structure")))
            }
        },
    }
}

/// An outcome as the result of a scrobble.
pub fn settle(outcome: Result<ScrobbleOutcome, ApiError>) -> (result: Result<(), ApiError>)
    ensures
        unit_result(result) == settled(outcome_result(outcome)),
{
    match outcome {
        Ok(ScrobbleOutcome::Accepted) => Ok(()),
        Ok(ScrobbleOutcome::Ignored { code, text }) => {
            let mut reason = code;
            reason.append(": ");
            reason.append(text.as_str());
            Err(ApiError::Unscrobbled(reason))
        },
        Err(error) => Err(error),
    }
}

/// The playing time that stands in for one that the service does not give.
pub const DEFAULT_DURATION: i64 = 300;

/// The playing time of a track entry: its member `duration` where that is
/// an integer that is not negative, and the default where the member is
/// missing or is anything else.
pub open spec fn duration_of(entry: Json) -> i64 {
    match entry.member("duration"@) {
        Some(duration) => match duration.integer() {
            Some(seconds) => if seconds >= 0 {
                seconds
            } else {
                DEFAULT_DURATION
            },
            None => DEFAULT_DURATION,
        },
        None => DEFAULT_DURATION,
    }
}

/// The track that an entry holds: its member `name` gives the title.
pub open spec fn track_of(entry: Json) -> Result<TrackModel, Failure> {
    match entry.member("name"@) {
        Some(name) => match name.text() {
            Some(title) => Ok(TrackModel { title, duration: duration_of(entry) as int }),
            None => Err(Failure::Json),
        },
        None => Err(Failure::Json),
    }
}

/// The tracks that a list of entries holds, in the order of the entries.
pub open spec fn tracks_of(entries: Seq<Json>) -> Result<Seq<TrackModel>, Failure> {
    if forall|i: int| 0 <= i < entries.len() ==> (#[trigger] track_of(entries[i])) is Ok {
        Ok(Seq::new(entries.len(), |i: int| track_of(entries[i])->Ok_0))
    } else {
        Err(Failure::Json)
    }
}

/// The album that a document holds. Its member `album` has the title as
/// `name`, the address of its page as `url`, if any, and the entries of its
/// tracks as the array `track` in `tracks`. An album without the member
/// `tracks` is an empty album, which is another error than a document of
/// the wrong shape.
pub open spec fn album_of(document: Json) -> Result<AlbumModel, Failure> {
    match document.member("album"@) {
        None => Err(Failure::Json),
        Some(album) => match album.member("tracks"@) {
            None => Err(Failure::EmptyAlbum),
            Some(tracks) => match tracks.member("track"@) {
                None => Err(Failure::Json),
                Some(list) => match list.items() {
                    None => Err(Failure::Json),
                    Some(entries) => match tracks_of(entries) {
                        Err(failure) => Err(failure),
                        Ok(tracks) => match album.member("name"@) {
                            None => Err(Failure::Json),
                            Some(name) => match name.text() {
                                None => Err(Failure::Json),
                                Some(title) => Ok(
                                    AlbumModel {
                                        title,
                                        tracks,
                                        url: match album.member("url"@) {
                                            Some(url) => url.text(),
                                            None => None,
                                        },
                                    },
                                ),
                            },
                        },
                    },
                },
            },
        },
    }
}

/// What the reply to an album request gives.
pub open spec fn album_reply(reply: HttpReply) -> Result<AlbumModel, Failure> {
    match refusal(reply) {
        Some(failure) => Err(failure),
        None => match json_document(body_of(reply)) {
            Some(document) => album_of(document),
            None => Err(Failure::Json),
        },
    }
}

/// The model of a result that holds an album.
pub open spec fn album_result(result: Result<Album, ApiError>) -> Result<AlbumModel, Failure> {
    match result {
        Ok(album) => Ok(album@),
        Err(error) => Err(error@),
    }
}

/// The model of a result that holds a track.
pub open spec fn track_result(result: Result<Track, ApiError>) -> Result<TrackModel, Failure> {
    match result {
        Ok(track) => Ok(track@),
        Err(error) => Err(error@),
    }
}

/// Whether a byte stands for itself in a percent-encoded text: the ASCII
/// letters and digits, and `-`, `.`, `_`, `~`.
pub open spec fn is_unreserved(byte: u8) -> bool {
    ||| 0x30 <= byte <= 0x39
    ||| 0x41 <= byte <= 0x5a
    ||| 0x61 <= byte <= 0x7a
    ||| byte == 0x2d
    ||| byte == 0x2e
    ||| byte == 0x5f
    ||| byte == 0x7e
}

/// The character of one hexadecimal digit, in uppercase.
pub open spec fn upper_hex_digit(d: int) -> char {
    if d < 10 {
        (d + 48) as u8 as char
    } else {
        (d + 55) as u8 as char
    }
}

/// One byte, percent-encoded.
pub open spec fn percent_encoded_byte(byte: u8) -> Seq<char> {
    if is_unreserved(byte) {
        seq![byte as char]
    } else {
        seq!['%', upper_hex_digit(byte as int / 16), upper_hex_digit(byte as int % 16)]
    }
}

/// Bytes, percent-encoded one by one.
pub open spec fn percent_encoded_bytes(bytes: Seq<u8>) -> Seq<char>
    decreases bytes.len(),
{
    if bytes.len() == 0 {
        Seq::empty()
    } else {
        percent_encoded_bytes(bytes.drop_last()) + percent_encoded_byte(bytes.last())
    }
}

/// A text, percent-encoded: each byte of its UTF-8 form stands for itself
/// where it is unreserved, and is written as `%` and two uppercase
/// hexadecimal digits where it is not.
pub open spec fn percent_encoded(text: Seq<char>) -> Seq<char> {
    percent_encoded_bytes(encode_utf8(text))
}

/// `urlencoding::encode`: percent-encodes every byte of the text but the
/// ASCII letters and digits and `-`, `.`, `_`, `~`.
#[verifier::external_body]
fn percent_encode(text: &str) -> (encoded: String)
    ensures
        encoded@ == percent_encoded(text@),
{
    urlencoding::encode(text).into_owned()
}

impl LastfmApi {
    /// The request for the description of an album. It is not signed.
    pub fn album_request(&self, artist: &str, album: &str) -> (request: HttpRequest)
        ensures
            request.url@ == self.api_host@ + "/2.0/?method=album.getInfo&artist="@
                + percent_encoded(artist@) + "&album="@ + percent_encoded(album@) + "&api_key="@
                + self.auth_config.api_key@ + "&format=json"@,
            request.body is Empty,
    {
        let mut url = self.api_host.clone();
        url.append("/2.0/?method=album.getInfo&artist=");
        url.append(percent_encode(artist).as_str());
        url.append("&album=");
        url.append(percent_encode(album).as_str());
        url.append("&api_key=");
        url.append(self.auth_config.api_key.as_str());
        url.append("&format=json");
        HttpRequest { url, body: RequestBody::Empty }
    }

    /// Reads the reply to a token request: the request token, the error
    /// `Generic` for an exchange that failed or was refused, and the error
    /// `Json` for a body without a text `token`.
    pub fn get_request_token(&self, reply: &HttpReply) -> (token: Result<String, ApiError>)
        ensures
            text_result(token) == token_reply(*reply),
    {
        match accepted_body(reply) {
            Err(error) => Err(error),
            Ok(body) => match parse_json(body) {
                Some(document) => token_from_json(&document),
                None => Err(ApiError::Json),
            },
        }
    }

    /// Reads the reply to a session request: the session key, the error
    /// `Generic` for an exchange that failed or was refused, and the error
    /// `Parse` for a body that is no XML or lacks the key.
    pub fn get_session_token(&self, reply: &HttpReply) -> (key: Result<String, ApiError>)
        ensures
            text_result(key) == session_reply(*reply),
    {
        match accepted_body(reply) {
            Err(error) => Err(error),
            Ok(body) => match read_xml(body) {
                Ok(root) => session_key_from_xml(&root),
                Err(message) => Err(ApiError::Parse(message)),
            },
        }
    }

    /// Reads the text of the reply to a scrobble: a success where the track
    /// was accepted, the error `Unscrobbled` with the reason where it was
    /// ignored, and the error `Parse` for every other text.
    pub fn parse_scrobble_response(&self, response_text: String) -> (result: Result<(), ApiError>)
        ensures
            unit_result(result) == scrobble_response(response_text@),
    {
        match read_xml(response_text.as_str()) {
            Ok(root) => settle(scrobble_outcome(&root)),
            Err(message) => Err(ApiError::Parse(message)),
        }
    }

    /// Reads the reply to a scrobble. An exchange that failed or was refused
    /// is the error `Generic`, and its body is not read.
    pub fn scrobble(&self, reply: &HttpReply) -> (result: Result<(), ApiError>)
        ensures
            unit_result(result) == scrobble_reply(*reply),
    {
        match accepted_body(reply) {
            Err(error) => Err(error),
            Ok(body) => self.parse_scrobble_response(body.to_owned()),
        }
    }

    /// Reads one entry of the track list. A missing playing time, or one
    /// that is no integer or is negative, is the default playing time.
    pub fn parse_track(&self, jtrack: &Json) -> (track: Result<Track, ApiError>)
        ensures
            track_result(track) == track_of(*jtrack),
    {
        let title = match jtrack.get("name") {
            Some(name) => match name.as_str() {
                Some(title) => title.to_owned(),
                None => {
                    return Err(ApiError::Json);
                },
            },
            None => {
                return Err(ApiError::Json);
            },
        };
        let duration = match jtrack.get("duration") {
            Some(duration) => match duration.as_i64() {
                Some(seconds) => if seconds >= 0 {
                    seconds
                } else {
                    DEFAULT_DURATION
                },
                None => DEFAULT_DURATION,
            },
            None => DEFAULT_DURATION,
        };
        Ok(Track { title, duration })
    }

    /// Reads the entries of the track list, in their order.
    fn parse_tracks(&self, entries: &Vec<Json>) -> (tracks: Result<Vec<Track>, ApiError>)
        ensures
            match tracks {
                Ok(list) => tracks_of(entries@) == Ok::<Seq<TrackModel>, Failure>(
                    track_models(list@),
                ),
                Err(error) => tracks_of(entries@) == Err::<Seq<TrackModel>, Failure>(error@),
            },
    {
        let mut tracks: Vec<Track> = Vec::new();
        let mut i: usize = 0;
        while i < entries.len()
            invariant
                i <= entries.len(),
                tracks@.len() == i,
                forall|k: int|
                    0 <= k < i ==> (#[trigger] track_of(entries@[k])) == Ok::<TrackModel, Failure>(
                        tracks@[k]@,
                    ),
            decreases entries.len() - i,
        {
            match self.parse_track(&entries[i]) {
                Ok(track) => {
                    tracks.push(track);
                },
                Err(error) => {
                    return Err(ApiError::Json);
                },
            }
            i += 1;
        }
        proof {
            assert(track_models(tracks@) =~= Seq::new(
                entries@.len(),
                |i: int| track_of(entries@[i])->Ok_0,
            ));
        }
        Ok(tracks)
    }

    /// The album that a document holds.
    pub fn album_from_json(&self, document: &Json) -> (album: Result<Album, ApiError>)
        ensures
            album_result(album) == album_of(*document),
    {
        let jalbum = match document.get("album") {
            Some(jalbum) => jalbum,
            None => {
                return Err(ApiError::Json);
            },
        };
        let jtracks = match jalbum.get("tracks") {
            Some(jtracks) => jtracks,
            None => {
                return Err(ApiError::EmptyAlbum);
            },
        };
        let entries = match jtracks.get("track") {
            Some(list) => match list.as_array() {
                Some(entries) => entries,
                None => {
                    return Err(ApiError::Json);
                },
            },
            None => {
                return Err(ApiError::Json);
            },
        };
        let tracks = match self.parse_tracks(entries) {
            Ok(tracks) => tracks,
            Err(error) => {
                return Err(error);
            },
        };
        let title = match jalbum.get("name") {
            Some(name) => match name.as_str() {
                Some(title) => title.to_owned(),
                None => {
                    return Err(ApiError::Json);
                },
            },
            None => {
                return Err(ApiError::Json);
            },
        };
        let url = match jalbum.get("url") {
            Some(url) => match url.as_str() {
                Some(text) => Some(text.to_owned()),
                None => None,
            },
            None => None,
        };
        Ok(Album { title, tracks, url })
    }

    /// Reads the reply to an album request: the album with its tracks, the
    /// error `Generic` for an exchange that failed or was refused, the error
    /// `EmptyAlbum` for an album without a track list, and the error `Json`
    /// for every other body of the wrong shape.
    pub fn get_album_tracks(&self, reply: &HttpReply) -> (album: Result<Album, ApiError>)
        ensures
            album_result(album) == album_reply(*reply),
    {
        match accepted_body(reply) {
            Err(error) => Err(error),
            Ok(body) => match parse_json(body) {
                Some(document) => self.album_from_json(&document),
                None => Err(ApiError::Json),
            },
        }
    }
}

/// An album that the service describes without the member `tracks` is an
/// empty album, not a document of the wrong shape.
pub proof fn lemma_album_without_tracks(document: Json)
    requires
        document.member("album"@) matches Some(album) && album.member("tracks"@) is None,
    ensures
        album_of(document) == Err::<AlbumModel, Failure>(Failure::EmptyAlbum),
{
}

/// A track entry with a title and without the member `duration` is a track
/// of the default playing time, not an error.
pub proof fn lemma_track_without_duration(entry: Json)
    requires
        entry.member("name"@) matches Some(name) && name.text() is Some,
        entry.member("duration"@) is None,
    ensures
        track_of(entry) matches Ok(track) && track.duration == 300,
{
}

/// No track of an album that a document holds has a negative playing time.
pub proof fn lemma_album_durations(document: Json, index: int)
    requires
        album_of(document) matches Ok(album) && 0 <= index < album.tracks.len(),
    ensures
        album_of(document)->Ok_0.tracks[index].duration >= 0,
{
    let entries = document.member("album"@)->0.member("tracks"@)->0.member("track"@)->0.items()->0;
    assert(track_of(entries[index]) is Ok);
}

/// The counts of a reply to a scrobble decide what it says: one accepted
/// and none ignored is an acceptance, and none accepted and none ignored is
/// no reply of the expected shape.
pub proof fn lemma_scrobble_counts(root: XmlTree, accepted: Seq<char>, ignored: Seq<char>)
    requires
        answer_element(root, "scrobbles"@) matches Some(scrobbles) && scrobbles.attribute(
            "accepted"@,
        ) == Some(accepted) && scrobbles.attribute("ignored"@) == Some(ignored),
    ensures
        parsed_i64(accepted) == Some(1i64) && parsed_i64(ignored) == Some(0i64)
            ==> scrobble_outcome_of(root) == Ok::<OutcomeModel, Failure>(OutcomeModel::Accepted),
        parsed_i64(accepted) == Some(0i64) && parsed_i64(ignored) == Some(0i64)
            ==> scrobble_outcome_of(root) is Err && scrobble_outcome_of(root)->Err_0 is Parse,
{
}

/// A reply to a scrobble with none accepted and one ignored, and with a
/// message of a code, is a refusal with that code and the text of the
/// message, which the result of the scrobble gives as one reason.
pub proof fn lemma_scrobble_ignored(root: XmlTree, code: Seq<char>)
    requires
        answer_element(root, "scrobbles"@) matches Some(scrobbles) && {
            &&& scrobbles.attribute("accepted"@) matches Some(accepted) && parsed_i64(accepted)
                == Some(0i64)
            &&& scrobbles.attribute("ignored"@) matches Some(ignored) && parsed_i64(ignored)
                == Some(1i64)
            &&& scrobbles.child("scrobble"@) matches Some(scrobble) && scrobble.child(
                "ignoredMessage"@,
            ) matches Some(message) && message.attribute("code"@) == Some(code)
        },
    ensures
        scrobble_outcome_of(root) matches Ok(OutcomeModel::Ignored { code: given, text }) && given
            == code && settled(scrobble_outcome_of(root)) == Err::<(), Failure>(
            Failure::Unscrobbled(code + ": "@ + text),
        ),
{
}

/// Builds a client, by default for the host of the service.
#[derive(Debug)]
pub struct LastfmApiBuilder {
    pub auth_config: AuthConfig,
    pub api_host: String,
}

impl LastfmApiBuilder {
    /// A builder for the given credentials and the host of the service.
    pub fn new(auth_config: AuthConfig) -> (builder: LastfmApiBuilder)
        ensures
            builder.auth_config == auth_config,
            builder.api_host@ == AUDIOSCROBBLER_HOST@,
    {
        LastfmApiBuilder { auth_config, api_host: String::from_str(AUDIOSCROBBLER_HOST) }
    }

    /// The builder with another host.
    pub fn with_api_host(self, api_host: String) -> (builder: LastfmApiBuilder)
        ensures
            builder.auth_config == self.auth_config,
            builder.api_host == api_host,
    {
        LastfmApiBuilder { auth_config: self.auth_config, api_host }
    }

    /// The client that was asked for.
    pub fn build(self) -> (api: LastfmApi)
        ensures
            api.auth_config == self.auth_config,
            api.api_host == self.api_host,
    {
        LastfmApi::new(self.auth_config, self.api_host)
    }
}

} // verus!
