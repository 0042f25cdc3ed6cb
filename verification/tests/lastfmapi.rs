use offline_scrobbler::auth::AuthConfig;
use offline_scrobbler::json::Json;
use offline_scrobbler::lastfmapi::{
    add_signature, scrobble_outcome, session_key_from_xml, settle, token_from_json, ApiError,
    HttpReply, LastfmApi, LastfmApiBuilder, RequestBody, ScrobbleOutcome, AUDIOSCROBBLER_HOST,
};
use offline_scrobbler::signature::{sign, Params};
use offline_scrobbler::xml::{XmlElement, XmlNode};

fn mock_client() -> LastfmApi {
    let auth_config = AuthConfig {
        api_key: String::new(),
        secret_key: String::new(),
        session_key: String::new(),
    };
    LastfmApiBuilder::new(auth_config).with_api_host("http://127.0.0.1:5000".to_string()).build()
}

fn client(api_key: &str, secret_key: &str, session_key: &str) -> LastfmApi {
    let auth_config = AuthConfig {
        api_key: api_key.to_string(),
        secret_key: secret_key.to_string(),
        session_key: session_key.to_string(),
    };
    LastfmApiBuilder::new(auth_config).build()
}

fn answered(status: u16, body: &str) -> HttpReply {
    HttpReply::Answered { status, body: body.to_string() }
}

fn album_body() -> String {
    let titles = [
        "Inhaler", "2Wicky", "Wardrope", "Plus profond", "Barabas", "Cinderella", "Nr. 9",
        "Sarangi", "Someone", "Revolver", "Innervoice",
    ];
    let mut tracks = Vec::new();
    for (index, title) in titles.iter().enumerate() {
        tracks.push(format!(
            "{{\"name\": \"{}\", \"duration\": {}, \"url\": \"https://www.last.fm/music/Hooverphonic/_/{}\", \"@attr\": {{\"rank\": {}}}}}",
            title,
            200 + index,
            index,
            index + 1
        ));
    }
    format!(
        "{{\"album\": {{\"artist\": \"Hooverphonic\", \"name\": \"A New Stereophonic Sound Spectacular\", \"url\": \"https://www.last.fm/music/Hooverphonic/A+New+Stereophonic+Sound+Spectacular\", \"listeners\": \"225609\", \"tracks\": {{\"track\": [{}]}}}}}}",
        tracks.join(", ")
    )
}

fn scrobble_body() -> &'static str {
    "<?xml version=\"1.0\" encoding=\"UTF-8\"?>\n<lfm status=\"ok\">\n  <scrobbles ignored=\"0\" accepted=\"1\">\n    <scrobble>\n      <track corrected=\"0\">Eden</track>\n      <artist corrected=\"0\">Hooverphonic</artist>\n      <album corrected=\"0\"/>\n      <albumArtist corrected=\"0\"/>\n      <timestamp>1700000000</timestamp>\n      <ignoredMessage code=\"0\"/>\n    </scrobble>\n  </scrobbles>\n</lfm>\n"
}

fn ignored_body(code: &str, text: &str) -> String {
    format!(
        "<lfm status=\"ok\"><scrobbles ignored=\"1\" accepted=\"0\"><scrobble><track corrected=\"0\">Eden</track><ignoredMessage code=\"{}\">{}</ignoredMessage></scrobble></scrobbles></lfm>",
        code, text
    )
}

#[test]
fn test_request_token() {
    let api = mock_client();
    let request = api.token_request();
    assert!(request.url.contains("/2.0/"));
    assert!(request.url.contains("method=auth.gettoken"));
    let res = api.get_request_token(&answered(200, "{\"token\": \"secrettoken\"}"));
    assert!(res.is_ok());
}

#[test]
fn test_request_token_fail() {
    let api = mock_client();
    let res = api.get_request_token(&answered(400, "{}"));
    assert!(res.is_err());
    assert!(matches!(res.unwrap_err(), ApiError::Generic(_)));
}

#[test]
fn test_get_album_tracks() {
    let api = mock_client();
    let request =
        api.album_request("Hooverphonic", "A New Stereophonic Sound Spectacular");
    assert!(request.url.contains("/2.0/"));
    assert!(request.url.contains("method=album.getInfo"));
    let res = api.get_album_tracks(&answered(200, &album_body()));
    assert!(res.is_ok());
    let album = res.unwrap();
    assert_eq!(album.title, "A New Stereophonic Sound Spectacular");
    assert_eq!(
        album.url.unwrap_or("".into()),
        "https://www.last.fm/music/Hooverphonic/A+New+Stereophonic+Sound+Spectacular"
    );
    assert_eq!(album.tracks.len(), 11);
}

#[test]
fn test_scrobble() {
    let api = mock_client();
    let request = api.scrobble_request("Hooverphonic".into(), "Eden".into(), 1700000000);
    assert!(request.url.ends_with("/2.0"));
    match &request.body {
        RequestBody::Form(params) => {
            assert_eq!(params.get("method"), Some(&"track.scrobble".to_string()))
        }
        RequestBody::Empty => panic!("a scrobble has a form"),
    }
    let res = api.scrobble(&answered(200, scrobble_body()));
    assert!(res.is_ok());
}

#[test]
fn token_request_has_the_exact_address() {
    let api = client("key", "sec", "");
    let request = api.token_request();
    assert_eq!(
        request.url,
        "https://ws.audioscrobbler.com/2.0/?method=auth.gettoken&api_key=key&format=json"
    );
    assert!(matches!(request.body, RequestBody::Empty));
    assert_eq!(AUDIOSCROBBLER_HOST, "https://ws.audioscrobbler.com");
}

#[test]
fn request_token_is_the_text_of_the_member() {
    let api = mock_client();
    let token = api.get_request_token(&answered(200, "{\"token\": \"secrettoken\"}"));
    assert_eq!(token.unwrap(), "secrettoken");
}

#[test]
fn request_token_that_is_missing_or_no_text_is_a_json_error() {
    let api = mock_client();
    for body in ["{}", "{\"token\": 5}", "{\"token\": null}", "[\"token\"]", "\"token\"", "not json", ""] {
        let token = api.get_request_token(&answered(200, body));
        assert!(matches!(token, Err(ApiError::Json)), "body {:?}", body);
    }
}

#[test]
fn a_refused_exchange_carries_the_raw_body() {
    let api = mock_client();
    let body = "{\"error\": 10, \"message\": \"Invalid API key\"}";
    match api.get_request_token(&answered(400, body)) {
        Err(ApiError::Generic(message)) => assert_eq!(message, body),
        other => panic!("unexpected {:?}", other),
    }
    match api.get_session_token(&answered(400, "<lfm status=\"failed\"/>")) {
        Err(ApiError::Generic(message)) => assert_eq!(message, "<lfm status=\"failed\"/>"),
        other => panic!("unexpected {:?}", other),
    }
    match api.scrobble(&answered(400, scrobble_body())) {
        Err(ApiError::Generic(message)) => assert_eq!(message, scrobble_body()),
        other => panic!("unexpected {:?}", other),
    }
    match api.get_album_tracks(&answered(400, &album_body())) {
        Err(ApiError::Generic(message)) => assert_eq!(message, album_body()),
        other => panic!("unexpected {:?}", other),
    }
}

#[test]
fn only_the_codes_from_200_to_299_are_a_success() {
    let api = mock_client();
    let body = "{\"token\": \"t\"}";
    for status in [200u16, 201, 204, 299] {
        assert_eq!(api.get_request_token(&answered(status, body)).unwrap(), "t");
    }
    for status in [0u16, 100, 199, 300, 301, 400, 404, 500, 503, u16::MAX] {
        match api.get_request_token(&answered(status, body)) {
            Err(ApiError::Generic(message)) => assert_eq!(message, body),
            other => panic!("unexpected {:?} for {}", other, status),
        }
    }
}

#[test]
fn a_failed_exchange_carries_its_words() {
    let api = mock_client();
    let reply = HttpReply::Failed("connection refused".to_string());
    match api.get_request_token(&reply) {
        Err(ApiError::Generic(message)) => assert_eq!(message, "connection refused"),
        other => panic!("unexpected {:?}", other),
    }
    assert!(matches!(api.scrobble(&reply), Err(ApiError::Generic(_))));
    assert!(matches!(api.get_session_token(&reply), Err(ApiError::Generic(_))));
    assert!(matches!(api.get_album_tracks(&reply), Err(ApiError::Generic(_))));
}

#[test]
fn token_from_json_reads_a_document() {
    let document = Json::Object(vec![("token".to_string(), Json::String("t".to_string()))]);
    assert_eq!(token_from_json(&document).unwrap(), "t");
    assert!(matches!(token_from_json(&Json::Null), Err(ApiError::Json)));
}

#[test]
fn session_request_is_signed() {
    let api = client("key", "sec", "");
    let request = api.session_request("tok".to_string());
    assert_eq!(request.url, "https://ws.audioscrobbler.com/2.0");
    let params = match request.body {
        RequestBody::Form(params) => params,
        RequestBody::Empty => panic!("a session request has a form"),
    };
    assert_eq!(params.get("api_key"), Some(&"key".to_string()));
    assert_eq!(params.get("method"), Some(&"auth.getSession".to_string()));
    assert_eq!(params.get("token"), Some(&"tok".to_string()));
    assert_eq!(params.get("api_sig"), Some(&"4553bae3d3ffad4d755bf2d502d6dfdb".to_string()));
    assert_eq!(params.entries().len(), 4);
}

#[test]
fn scrobble_request_is_signed() {
    let api = client("key", "sec", "sess");
    let request = api.scrobble_request("Hooverphonic".into(), "Eden".into(), 1700000000);
    assert_eq!(request.url, "https://ws.audioscrobbler.com/2.0");
    let params = match request.body {
        RequestBody::Form(params) => params,
        RequestBody::Empty => panic!("a scrobble has a form"),
    };
    assert_eq!(params.get("api_key"), Some(&"key".to_string()));
    assert_eq!(params.get("method"), Some(&"track.scrobble".to_string()));
    assert_eq!(params.get("artist"), Some(&"Hooverphonic".to_string()));
    assert_eq!(params.get("track"), Some(&"Eden".to_string()));
    assert_eq!(params.get("timestamp"), Some(&"1700000000".to_string()));
    assert_eq!(params.get("sk"), Some(&"sess".to_string()));
    assert_eq!(params.get("api_sig"), Some(&"2b2bf834572a4fda512925889b6b2904".to_string()));
    assert_eq!(params.entries().len(), 7);
}

#[test]
fn add_signature_signs_what_it_was_given() {
    let params = Params::new().with("b", "2".to_string()).with("a", "1".to_string());
    let expected = sign(&params, "secret");
    let signed = add_signature(params, "secret");
    assert_eq!(signed.get("api_sig"), Some(&expected));
    assert_eq!(signed.get("a"), Some(&"1".to_string()));
    assert_eq!(signed.get("b"), Some(&"2".to_string()));
}

#[test]
fn album_request_percent_encodes_the_names() {
    let api = client("key", "sec", "");
    let request = api.album_request("Sigur R\u{f3}s", "( ) & a/b~c_d-e.f");
    assert_eq!(
        request.url,
        "https://ws.audioscrobbler.com/2.0/?method=album.getInfo&artist=Sigur%20R%C3%B3s&album=%28%20%29%20%26%20a%2Fb~c_d-e.f&api_key=key&format=json"
    );
    assert!(matches!(request.body, RequestBody::Empty));
}

#[test]
fn session_key_is_read_from_the_reply() {
    let api = mock_client();
    let body = "<?xml version=\"1.0\" encoding=\"utf-8\"?><lfm status=\"ok\"><session><name>user</name><key>d580d57f32848f5dcf574d1ce18d78b2</key><subscriber>0</subscriber></session></lfm>";
    let key = api.get_session_token(&answered(200, body));
    assert_eq!(key.unwrap(), "d580d57f32848f5dcf574d1ce18d78b2");
}

#[test]
fn session_key_is_read_where_the_session_is_the_root() {
    let api = mock_client();
    let key = api.get_session_token(&answered(200, "<session><key>abc</key></session>"));
    assert_eq!(key.unwrap(), "abc");
}

#[test]
fn session_reply_without_its_elements_is_a_parse_error() {
    let api = mock_client();
    match api.get_session_token(&answered(200, "<lfm status=\"ok\"></lfm>")) {
        Err(ApiError::Parse(message)) => assert_eq!(message, "xml tag session"),
        other => panic!("unexpected {:?}", other),
    }
    match api.get_session_token(&answered(200, "<lfm><session><name>u</name></session></lfm>")) {
        Err(ApiError::Parse(message)) => assert_eq!(message, "xml tag key"),
        other => panic!("unexpected {:?}", other),
    }
    match api.get_session_token(&answered(200, "<lfm><session><key></key></session></lfm>")) {
        Err(ApiError::Parse(message)) => assert_eq!(message, "xml text"),
        other => panic!("unexpected {:?}", other),
    }
    assert!(matches!(
        api.get_session_token(&answered(200, "this is no xml")),
        Err(ApiError::Parse(_))
    ));
    assert!(matches!(api.get_session_token(&answered(200, "")), Err(ApiError::Parse(_))));
}

#[test]
fn session_key_from_xml_reads_a_document() {
    let key = XmlElement {
        name: "key".to_string(),
        attributes: vec![],
        children: vec![XmlNode::Text("k1".to_string())],
    };
    let session = XmlElement {
        name: "session".to_string(),
        attributes: vec![],
        children: vec![XmlNode::Element(key)],
    };
    let root = XmlElement {
        name: "lfm".to_string(),
        attributes: vec![("status".to_string(), "ok".to_string())],
        children: vec![XmlNode::Element(session)],
    };
    assert_eq!(session_key_from_xml(&root).unwrap(), "k1");
}

#[test]
fn scrobble_that_was_accepted_is_a_success() {
    let api = mock_client();
    assert!(api.parse_scrobble_response(scrobble_body().to_string()).is_ok());
    let bare = "<scrobbles accepted=\"1\" ignored=\"0\"></scrobbles>";
    assert!(api.parse_scrobble_response(bare.to_string()).is_ok());
}

#[test]
fn scrobble_that_was_ignored_gives_code_and_text() {
    let api = mock_client();
    match api.parse_scrobble_response(ignored_body("1", "reason")) {
        Err(ApiError::Unscrobbled(reason)) => assert_eq!(reason, "1: reason"),
        other => panic!("unexpected {:?}", other),
    }
    match api.scrobble(&answered(200, &ignored_body("1", "reason"))) {
        Err(ApiError::Unscrobbled(reason)) => assert_eq!(reason, "1: reason"),
        other => panic!("unexpected {:?}", other),
    }
}

#[test]
fn scrobble_outcome_tells_the_three_shapes() {
    fn scrobbles(accepted: &str, ignored: &str, children: Vec<XmlNode>) -> XmlElement {
        XmlElement {
            name: "lfm".to_string(),
            attributes: vec![],
            children: vec![XmlNode::Element(XmlElement {
                name: "scrobbles".to_string(),
                attributes: vec![
                    ("accepted".to_string(), accepted.to_string()),
                    ("ignored".to_string(), ignored.to_string()),
                ],
                children,
            })],
        }
    }
    fn message(code: &str, text: Option<&str>) -> Vec<XmlNode> {
        let children = match text {
            Some(text) => vec![XmlNode::Text(text.to_string())],
            None => vec![],
        };
        vec![XmlNode::Element(XmlElement {
            name: "scrobble".to_string(),
            attributes: vec![],
            children: vec![XmlNode::Element(XmlElement {
                name: "ignoredMessage".to_string(),
                attributes: vec![("code".to_string(), code.to_string())],
                children,
            })],
        })]
    }
    assert!(matches!(
        scrobble_outcome(&scrobbles("1", "0", vec![])),
        Ok(ScrobbleOutcome::Accepted)
    ));
    match scrobble_outcome(&scrobbles("0", "1", message("1", Some("reason")))) {
        Ok(ScrobbleOutcome::Ignored { code, text }) => {
            assert_eq!(code, "1");
            assert_eq!(text, "reason");
        }
        other => panic!("unexpected {:?}", other),
    }
    match scrobble_outcome(&scrobbles("0", "1", message("3", None))) {
        Ok(ScrobbleOutcome::Ignored { code, text }) => {
            assert_eq!(code, "3");
            assert_eq!(text, "");
        }
        other => panic!("unexpected {:?}", other),
    }
    match scrobble_outcome(&scrobbles("0", "0", vec![])) {
        Err(ApiError::Parse(message)) => assert_eq!(message, "Wrong response structure"),
        other => panic!("unexpected {:?}", other),
    }
    for (accepted, ignored) in [("1", "1"), ("2", "0"), ("0", "2"), ("-1", "0")] {
        assert!(matches!(
            scrobble_outcome(&scrobbles(accepted, ignored, message("1", Some("r")))),
            Err(ApiError::Parse(_))
        ));
    }
}

#[test]
fn scrobble_reply_of_another_shape_is_a_parse_error() {
    let api = mock_client();
    let cases = [
        ("<lfm status=\"ok\"></lfm>", "xml scrobbles key"),
        ("<lfm><scrobbles ignored=\"0\"/></lfm>", "no accepted attr"),
        ("<lfm><scrobbles accepted=\"1\"/></lfm>", "no ignored attr"),
        ("<lfm><scrobbles accepted=\"one\" ignored=\"0\"/></lfm>", "integer"),
        ("<lfm><scrobbles accepted=\"1\" ignored=\"\"/></lfm>", "integer"),
        ("<lfm><scrobbles accepted=\"0\" ignored=\"0\"/></lfm>", "Wrong response structure"),
        ("<lfm><scrobbles accepted=\"1\" ignored=\"1\"/></lfm>", "Wrong response structure"),
        ("<lfm><scrobbles accepted=\"0\" ignored=\"1\"/></lfm>", "xml tag scrobble"),
        (
            "<lfm><scrobbles accepted=\"0\" ignored=\"1\"><scrobble/></scrobbles></lfm>",
            "xml tag ignoredMessage",
        ),
        (
            "<lfm><scrobbles accepted=\"0\" ignored=\"1\"><scrobble><ignoredMessage>x</ignoredMessage></scrobble></scrobbles></lfm>",
            "no code attr",
        ),
    ];
    for (body, expected) in cases {
        match api.parse_scrobble_response(body.to_string()) {
            Err(ApiError::Parse(message)) => assert_eq!(message, expected, "body {}", body),
            other => panic!("unexpected {:?} for {}", other, body),
        }
    }
    assert!(matches!(
        api.parse_scrobble_response("no xml".to_string()),
        Err(ApiError::Parse(_))
    ));
}

#[test]
fn reply_with_too_much_markup_is_not_read() {
    let api = mock_client();
    let nested = |depth: usize| {
        let mut body = String::from("<lfm><scrobbles accepted=\"1\" ignored=\"0\">");
        for _ in 0..depth {
            body.push_str("<a>");
        }
        for _ in 0..depth {
            body.push_str("</a>");
        }
        body.push_str("</scrobbles></lfm>");
        body
    };
    assert!(api.parse_scrobble_response(nested(100)).is_ok());
    assert!(api.parse_scrobble_response(nested(126)).is_ok());
    match api.parse_scrobble_response(nested(127)) {
        Err(ApiError::Parse(message)) => assert_eq!(message, "Markup beyond what is read"),
        other => panic!("unexpected {:?}", other),
    }
    match api.parse_scrobble_response(nested(5000)) {
        Err(ApiError::Parse(message)) => assert_eq!(message, "Markup beyond what is read"),
        other => panic!("unexpected {:?}", other),
    }
    let declared = "<!DOCTYPE lfm [<!ENTITY e \"x\">]><lfm><scrobbles accepted=\"1\" ignored=\"0\"/></lfm>";
    match api.parse_scrobble_response(declared.to_string()) {
        Err(ApiError::Parse(message)) => assert_eq!(message, "Markup beyond what is read"),
        other => panic!("unexpected {:?}", other),
    }
    let commented = "<lfm><!-- note --><scrobbles accepted=\"1\" ignored=\"0\"><![CDATA[<!D]]></scrobbles></lfm>";
    match api.parse_scrobble_response(commented.to_string()) {
        Err(ApiError::Parse(message)) => assert_eq!(message, "Markup beyond what is read"),
        other => panic!("unexpected {:?}", other),
    }
    let plain = "<lfm><!-- note --><scrobbles accepted=\"1\" ignored=\"0\"><![CDATA[text]]></scrobbles></lfm>";
    assert!(api.parse_scrobble_response(plain.to_string()).is_ok());
}

#[test]
fn reply_with_escaped_text_is_read() {
    let api = mock_client();
    match api.parse_scrobble_response(ignored_body("2", "Track &amp; artist &lt;ignored&gt;")) {
        Err(ApiError::Unscrobbled(reason)) => assert_eq!(reason, "2: Track & artist <ignored>"),
        other => panic!("unexpected {:?}", other),
    }
}

#[test]
fn errors_have_words() {
    assert_eq!(ApiError::Generic("down".to_string()).message(), "generic: down");
    assert_eq!(ApiError::Json.message(), "json error");
    assert_eq!(ApiError::Parse("xml text".to_string()).message(), "parse error: xml text");
    assert_eq!(ApiError::Unscrobbled("1: reason".to_string()).message(), "unscrobbled: 1: reason");
    assert_eq!(ApiError::EmptyAlbum.message(), "unscrobbled: Empty album");
}

#[test]
fn settle_turns_an_ignored_track_into_an_error() {
    assert!(settle(Ok(ScrobbleOutcome::Accepted)).is_ok());
    let ignored = ScrobbleOutcome::Ignored { code: "7".to_string(), text: String::new() };
    match settle(Ok(ignored)) {
        Err(ApiError::Unscrobbled(reason)) => assert_eq!(reason, "7: "),
        other => panic!("unexpected {:?}", other),
    }
    assert!(matches!(settle(Err(ApiError::Json)), Err(ApiError::Json)));
}

#[test]
fn album_without_tracks_is_an_empty_album() {
    let api = mock_client();
    let body = "{\"album\": {\"name\": \"Untitled\", \"url\": \"https://www.last.fm/music/a/b\"}}";
    let album = api.get_album_tracks(&answered(200, body));
    assert!(matches!(album, Err(ApiError::EmptyAlbum)));
    let album = api.get_album_tracks(&answered(200, "{\"album\": \"no object\"}"));
    assert!(matches!(album, Err(ApiError::EmptyAlbum)));
}

#[test]
fn track_without_duration_plays_for_the_default_time() {
    let api = mock_client();
    let body = "{\"album\": {\"name\": \"Some\", \"tracks\": {\"track\": [{\"name\": \"One\"}, {\"name\": \"Two\", \"duration\": null}, {\"name\": \"Three\", \"duration\": \"12\"}, {\"name\": \"Four\", \"duration\": 1.5}, {\"name\": \"Five\", \"duration\": 241}, {\"name\": \"Six\", \"duration\": -7}, {\"name\": \"Seven\", \"duration\": 0}, {\"name\": \"Eight\", \"duration\": 18446744073709551615}]}}}";
    let album = api.get_album_tracks(&answered(200, body)).unwrap();
    let durations: Vec<i64> = album.tracks.iter().map(|track| track.duration).collect();
    assert_eq!(durations, vec![300, 300, 300, 300, 241, 300, 0, 300]);
    let titles: Vec<&str> = album.tracks.iter().map(|track| track.title.as_str()).collect();
    assert_eq!(titles, vec!["One", "Two", "Three", "Four", "Five", "Six", "Seven", "Eight"]);
    assert_eq!(album.url, None);
    assert_eq!(album.title, "Some");
}

#[test]
fn parse_track_reads_an_entry() {
    let api = mock_client();
    let entry = Json::Object(vec![("name".to_string(), Json::String("One".to_string()))]);
    let track = api.parse_track(&entry).unwrap();
    assert_eq!(track.title, "One");
    assert_eq!(track.duration, 300);
    let timed = Json::Object(vec![
        ("duration".to_string(), Json::Number(Some(187))),
        ("name".to_string(), Json::String("Two".to_string())),
    ]);
    assert_eq!(api.parse_track(&timed).unwrap().duration, 187);
    let negative = Json::Object(vec![
        ("name".to_string(), Json::String("Three".to_string())),
        ("duration".to_string(), Json::Number(Some(-1))),
    ]);
    assert_eq!(api.parse_track(&negative).unwrap().duration, 300);
    let nameless = Json::Object(vec![("duration".to_string(), Json::Number(Some(187)))]);
    assert!(matches!(api.parse_track(&nameless), Err(ApiError::Json)));
    let numbered = Json::Object(vec![("name".to_string(), Json::Number(Some(1)))]);
    assert!(matches!(api.parse_track(&numbered), Err(ApiError::Json)));
}

#[test]
fn album_of_another_shape_is_a_json_error() {
    let api = mock_client();
    let bodies = [
        "{}",
        "[]",
        "{\"error\": 6, \"message\": \"Album not found\"}",
        "{\"album\": {\"name\": \"A\", \"tracks\": {}}}",
        "{\"album\": {\"name\": \"A\", \"tracks\": {\"track\": {\"name\": \"only\"}}}}",
        "{\"album\": {\"name\": \"A\", \"tracks\": {\"track\": [{\"title\": \"x\"}]}}}",
        "{\"album\": {\"tracks\": {\"track\": []}}}",
        "{\"album\": {\"name\": 5, \"tracks\": {\"track\": []}}}",
        "{\"album\": ",
    ];
    for body in bodies {
        let album = api.get_album_tracks(&answered(200, body));
        assert!(matches!(album, Err(ApiError::Json)), "body {}", body);
    }
}

#[test]
fn album_with_an_empty_list_has_no_tracks() {
    let api = mock_client();
    let body = "{\"album\": {\"name\": \"A\", \"url\": 5, \"tracks\": {\"track\": []}}}";
    let album = api.get_album_tracks(&answered(200, body)).unwrap();
    assert_eq!(album.tracks.len(), 0);
    assert_eq!(album.url, None);
}

#[test]
fn album_from_json_reads_a_document() {
    let api = mock_client();
    let track = Json::Object(vec![
        ("name".to_string(), Json::String("Eden".to_string())),
        ("duration".to_string(), Json::Number(Some(212))),
    ]);
    let document = Json::Object(vec![(
        "album".to_string(),
        Json::Object(vec![
            ("name".to_string(), Json::String("Blue Wonder Power Milk".to_string())),
            (
                "tracks".to_string(),
                Json::Object(vec![("track".to_string(), Json::Array(vec![track]))]),
            ),
        ]),
    )]);
    let album = api.album_from_json(&document).unwrap();
    assert_eq!(album.title, "Blue Wonder Power Milk");
    assert_eq!(album.tracks.len(), 1);
    assert_eq!(album.tracks[0].title, "Eden");
    assert_eq!(album.tracks[0].duration, 212);
    assert_eq!(album.url, None);
}

#[test]
fn builder_keeps_what_it_was_given() {
    let auth_config = AuthConfig {
        api_key: "k".to_string(),
        secret_key: "s".to_string(),
        session_key: "sk".to_string(),
    };
    let builder = LastfmApiBuilder::new(auth_config);
    assert_eq!(builder.api_host, "https://ws.audioscrobbler.com");
    let api = builder.with_api_host("http://localhost".to_string()).build();
    assert_eq!(api.api_host, "http://localhost");
    assert_eq!(api.auth_config.api_key, "k");
    assert_eq!(api.auth_config.secret_key, "s");
    assert_eq!(api.auth_config.session_key, "sk");
}
