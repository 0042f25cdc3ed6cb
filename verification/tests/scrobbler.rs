use offline_scrobbler::auth::AuthConfig;
use offline_scrobbler::lastfmapi::{
    Album, ApiError, HttpReply, HttpRequest, LastfmApi, LastfmApiBuilder, RequestBody, Track,
};
use offline_scrobbler::scrobbler::{
    album_from_url_parts, plan_timeline, scrobble_album, scrobble_album_at, scrobble_timeline,
    scrobble_track, scrobble_track_request, scrobble_track_request_at, scrobble_url, Moment,
    Offset, PlannedScrobble, ScrobbleError, Timeline, TimelineAction, UrlError, UrlParts,
    TRACK_GAP,
};
use offline_scrobbler::utils::now_local;

const T: i64 = 1_700_000_000;

fn api() -> LastfmApi {
    let auth_config = AuthConfig {
        api_key: "key".to_string(),
        secret_key: "sec".to_string(),
        session_key: "sess".to_string(),
    };
    LastfmApiBuilder::new(auth_config).build()
}

fn album(durations: &[i64]) -> Album {
    Album {
        title: "Album".to_string(),
        tracks: durations
            .iter()
            .enumerate()
            .map(|(index, duration)| Track { title: format!("Track {}", index + 1), duration: *duration })
            .collect(),
        url: None,
    }
}

fn at(seconds: i64) -> Moment {
    Moment { seconds, nanoseconds: 0 }
}

fn no_offset() -> Offset {
    Offset { seconds: 0, nanoseconds: 0 }
}

fn stamps(plan: &[PlannedScrobble]) -> Vec<i64> {
    plan.iter().map(|entry| entry.timestamp).collect()
}

fn answered(body: &str) -> HttpReply {
    HttpReply::Answered { status: 200, body: body.to_string() }
}

fn accepted() -> HttpReply {
    answered("<lfm status=\"ok\"><scrobbles accepted=\"1\" ignored=\"0\"/></lfm>")
}

fn ignored() -> HttpReply {
    answered("<lfm status=\"ok\"><scrobbles accepted=\"0\" ignored=\"1\"><scrobble><ignoredMessage code=\"1\">reason</ignoredMessage></scrobble></scrobbles></lfm>")
}

fn album_reply(durations: &[i64]) -> HttpReply {
    let tracks: Vec<String> = durations
        .iter()
        .enumerate()
        .map(|(index, duration)| format!("{{\"name\": \"Track {}\", \"duration\": {}}}", index + 1, duration))
        .collect();
    answered(&format!(
        "{{\"album\": {{\"name\": \"Album\", \"tracks\": {{\"track\": [{}]}}}}}}",
        tracks.join(", ")
    ))
}

fn form_value(request: &HttpRequest, name: &str) -> String {
    match &request.body {
        RequestBody::Form(params) => params.get(name).cloned().unwrap_or_default(),
        RequestBody::Empty => panic!("a scrobble has a form"),
    }
}

fn submitted(action: &TimelineAction) -> &HttpRequest {
    match action {
        TimelineAction::Submit(request) => request,
        TimelineAction::Finish(result) => panic!("the batch is over: {:?}", result),
    }
}

#[test]
fn timeline_of_three_tracks() {
    let plan = plan_timeline(&album(&[180, 200, 220]), at(T), no_offset()).unwrap();
    assert_eq!(stamps(&plan), vec![T - 430, T - 225, T]);
    assert_eq!(plan[0].timestamp, T - 220 - 5 - 200 - 5);
    assert_eq!(plan[1].timestamp - plan[0].timestamp, 5 + 200);
    assert_eq!(plan[2].timestamp - plan[1].timestamp, 5 + 220);
    assert_eq!(plan[0].timestamp, (T - 600 - 2 * 5) + 180);
    let titles: Vec<&str> = plan.iter().map(|entry| entry.track.title.as_str()).collect();
    assert_eq!(titles, vec!["Track 1", "Track 2", "Track 3"]);
    let durations: Vec<i64> = plan.iter().map(|entry| entry.track.duration).collect();
    assert_eq!(durations, vec![180, 200, 220]);
    assert_eq!(TRACK_GAP, 5);
}

#[test]
fn timeline_of_one_track_and_of_none() {
    let one = plan_timeline(&album(&[300]), at(T), no_offset()).unwrap();
    assert_eq!(stamps(&one), vec![T]);
    let none = plan_timeline(&album(&[]), at(T), no_offset()).unwrap();
    assert!(none.is_empty());
}

#[test]
fn timeline_moves_back_by_the_offset() {
    let offset = Offset { seconds: 3600, nanoseconds: 0 };
    let plan = plan_timeline(&album(&[180, 200, 220]), at(T), offset).unwrap();
    assert_eq!(stamps(&plan), vec![T - 3600 - 430, T - 3600 - 225, T - 3600]);
}

#[test]
fn timeline_counts_whole_seconds_of_the_instant() {
    let reference = Moment { seconds: T, nanoseconds: 200_000_000 };
    let later = Offset { seconds: 10, nanoseconds: 100_000_000 };
    let plan = plan_timeline(&album(&[60]), reference, later).unwrap();
    assert_eq!(stamps(&plan), vec![T - 10]);
    let borrow = Offset { seconds: 10, nanoseconds: 300_000_000 };
    let plan = plan_timeline(&album(&[60]), reference, borrow).unwrap();
    assert_eq!(stamps(&plan), vec![T - 11]);
    let exact = Offset { seconds: 10, nanoseconds: 200_000_000 };
    let plan = plan_timeline(&album(&[60]), reference, exact).unwrap();
    assert_eq!(stamps(&plan), vec![T - 10]);
    let before_epoch = Moment { seconds: -1, nanoseconds: 0 };
    let plan = plan_timeline(&album(&[60, 30]), before_epoch, borrow).unwrap();
    assert_eq!(stamps(&plan), vec![-12 - 35, -12]);
}

#[test]
fn timeline_out_of_range_is_nothing() {
    let latest = plan_timeline(&album(&[10, 20]), at(i64::MAX), no_offset()).unwrap();
    assert_eq!(stamps(&latest), vec![i64::MAX - 25, i64::MAX]);
    assert!(plan_timeline(&album(&[10, -20]), at(i64::MAX), no_offset()).is_none());
    let earliest = plan_timeline(&album(&[10, 20]), at(i64::MIN + 25), no_offset()).unwrap();
    assert_eq!(stamps(&earliest), vec![i64::MIN, i64::MIN + 25]);
    assert!(plan_timeline(&album(&[10, 20]), at(i64::MIN + 24), no_offset()).is_none());
    assert!(plan_timeline(&album(&[i64::MAX, 10]), at(0), no_offset()).is_some());
    assert!(plan_timeline(&album(&[10, i64::MAX, i64::MAX]), at(0), no_offset()).is_none());
    let far = Offset { seconds: u64::MAX, nanoseconds: 0 };
    assert!(plan_timeline(&album(&[10]), at(0), far).is_none());
    assert!(plan_timeline(&album(&[]), at(0), far).is_some());
    let plan = plan_timeline(&album(&[-20, 10]), at(0), no_offset()).unwrap();
    assert_eq!(stamps(&plan), vec![-15, 0]);
}

#[test]
fn batch_with_an_ignored_track_fails_after_the_last_track() {
    let api = api();
    let plan = plan_timeline(&album(&[180, 200, 220]), at(T), no_offset()).unwrap();
    let timeline = Timeline::new("Artist".to_string(), plan);
    let first = timeline.next_action(&api);
    assert_eq!(form_value(submitted(&first), "track"), "Track 1");
    assert_eq!(form_value(submitted(&first), "artist"), "Artist");
    assert_eq!(form_value(submitted(&first), "timestamp"), (T - 430).to_string());
    let (timeline, second) = scrobble_timeline(&api, timeline, &accepted());
    assert_eq!(form_value(submitted(&second), "track"), "Track 2");
    assert_eq!(form_value(submitted(&second), "timestamp"), (T - 225).to_string());
    assert!(timeline.ignored.is_empty());
    let (timeline, third) = scrobble_timeline(&api, timeline, &ignored());
    assert_eq!(form_value(submitted(&third), "track"), "Track 3");
    assert_eq!(form_value(submitted(&third), "timestamp"), T.to_string());
    assert_eq!(timeline.ignored.len(), 1);
    assert_eq!(timeline.ignored[0].position, 1);
    assert_eq!(timeline.ignored[0].reason, "1: reason");
    assert_eq!(timeline.position, 2);
    let (timeline, last) = scrobble_timeline(&api, timeline, &accepted());
    assert_eq!(timeline.position, 3);
    assert_eq!(timeline.ignored.len(), 1);
    assert!(matches!(last, TimelineAction::Finish(Err(ScrobbleError::NotAllScrobbled))));
}

#[test]
fn batch_of_accepted_tracks_succeeds() {
    let api = api();
    let plan = plan_timeline(&album(&[180, 200]), at(T), no_offset()).unwrap();
    let timeline = Timeline::new("Artist".to_string(), plan);
    let (timeline, action) = scrobble_timeline(&api, timeline, &accepted());
    assert!(matches!(action, TimelineAction::Submit(_)));
    let (timeline, action) = scrobble_timeline(&api, timeline, &accepted());
    assert!(matches!(action, TimelineAction::Finish(Ok(()))));
    let (timeline, action) = scrobble_timeline(&api, timeline, &accepted());
    assert!(matches!(action, TimelineAction::Finish(Ok(()))));
    assert_eq!(timeline.position, 2);
}

#[test]
fn batch_ends_at_the_first_error_of_a_call() {
    let api = api();
    let plan = plan_timeline(&album(&[180, 200, 220]), at(T), no_offset()).unwrap();
    let timeline = Timeline::new("Artist".to_string(), plan);
    let (timeline, _) = scrobble_timeline(&api, timeline, &ignored());
    let refused = HttpReply::Answered { status: 503, body: "down".to_string() };
    let (timeline, action) = scrobble_timeline(&api, timeline, &refused);
    match action {
        TimelineAction::Finish(Err(ScrobbleError::Api(ApiError::Generic(message)))) => {
            assert_eq!(message, "down")
        }
        other => panic!("unexpected {:?}", other),
    }
    assert_eq!(timeline.position, 3);
    let plan = plan_timeline(&album(&[180, 200]), at(T), no_offset()).unwrap();
    let timeline = Timeline::new("Artist".to_string(), plan);
    let (_, action) = scrobble_timeline(&api, timeline, &answered("<lfm/>"));
    assert!(matches!(action, TimelineAction::Finish(Err(ScrobbleError::Api(ApiError::Parse(_))))));
}

#[test]
fn batch_of_no_tracks_is_over_at_once() {
    let api = api();
    let timeline = Timeline::new("Artist".to_string(), Vec::new());
    assert!(matches!(timeline.next_action(&api), TimelineAction::Finish(Ok(()))));
}

#[test]
fn album_command_with_one_ignored_track_among_three_fails() {
    let api = api();
    let (timeline, action) = scrobble_album_at(
        &api,
        "Artist".to_string(),
        &album_reply(&[180, 200, 220]),
        false,
        at(T),
        None,
    );
    assert_eq!(stamps(&timeline.plan), vec![T - 430, T - 225, T]);
    assert_eq!(form_value(submitted(&action), "track"), "Track 1");
    let (timeline, action) = scrobble_timeline(&api, timeline, &accepted());
    assert!(matches!(action, TimelineAction::Submit(_)));
    let (timeline, action) = scrobble_timeline(&api, timeline, &ignored());
    assert!(matches!(action, TimelineAction::Submit(_)));
    let (_, action) = scrobble_timeline(&api, timeline, &accepted());
    assert!(matches!(action, TimelineAction::Finish(Err(ScrobbleError::NotAllScrobbled))));
}

#[test]
fn album_command_in_a_dry_run_sends_nothing() {
    let api = api();
    let start = Some(Offset { seconds: 60, nanoseconds: 0 });
    let (timeline, action) = scrobble_album_at(
        &api,
        "Artist".to_string(),
        &album_reply(&[180, 200, 220]),
        true,
        at(T),
        start,
    );
    assert!(matches!(action, TimelineAction::Finish(Ok(()))));
    assert_eq!(stamps(&timeline.plan), vec![T - 60 - 430, T - 60 - 225, T - 60]);
    assert_eq!(timeline.position, 3);
    assert!(matches!(timeline.next_action(&api), TimelineAction::Finish(Ok(()))));
}

#[test]
fn album_command_passes_on_the_error_of_the_lookup() {
    let api = api();
    let empty = answered("{\"album\": {\"name\": \"Album\"}}");
    let (_, action) = scrobble_album_at(&api, "Artist".to_string(), &empty, false, at(T), None);
    assert!(matches!(
        action,
        TimelineAction::Finish(Err(ScrobbleError::Api(ApiError::EmptyAlbum)))
    ));
    let (_, action) =
        scrobble_album_at(&api, "Artist".to_string(), &answered("{}"), true, at(T), None);
    assert!(matches!(action, TimelineAction::Finish(Err(ScrobbleError::Api(ApiError::Json)))));
    let (_, action) = scrobble_album_at(
        &api,
        "Artist".to_string(),
        &album_reply(&[10]),
        false,
        at(0),
        Some(Offset { seconds: u64::MAX, nanoseconds: 0 }),
    );
    assert!(matches!(action, TimelineAction::Finish(Err(ScrobbleError::OutOfRange))));
}

#[test]
fn track_command_scrobbles_at_the_offset_before_now() {
    let api = api();
    let start = Some(Offset { seconds: 3600, nanoseconds: 0 });
    let request =
        scrobble_track_request_at(&api, "Hooverphonic".into(), "Eden".into(), at(T), start)
            .unwrap();
    assert_eq!(form_value(&request, "timestamp"), (T - 3600).to_string());
    assert_eq!(form_value(&request, "track"), "Eden");
    assert_eq!(form_value(&request, "artist"), "Hooverphonic");
    let request =
        scrobble_track_request_at(&api, "Hooverphonic".into(), "Eden".into(), at(T), None)
            .unwrap();
    assert_eq!(form_value(&request, "timestamp"), T.to_string());
    let far = Some(Offset { seconds: u64::MAX, nanoseconds: 0 });
    assert!(scrobble_track_request_at(&api, "a".into(), "b".into(), at(0), far).is_none());
}

#[test]
fn track_command_takes_an_ignored_track_for_a_success() {
    let api = api();
    assert_eq!(scrobble_track(&api, &accepted()).unwrap(), None);
    assert_eq!(scrobble_track(&api, &ignored()).unwrap(), Some("1: reason".to_string()));
    assert!(matches!(scrobble_track(&api, &answered("<lfm/>")), Err(ApiError::Parse(_))));
    let failed = HttpReply::Failed("timeout".to_string());
    assert!(matches!(scrobble_track(&api, &failed), Err(ApiError::Generic(_))));
}

#[test]
fn url_of_an_album_page_gives_artist_and_album() {
    let names = scrobble_url(
        "https://www.last.fm/music/Hooverphonic/A+New+Stereophonic+Sound+Spectacular",
    )
    .unwrap();
    assert_eq!(names.0, "Hooverphonic");
    assert_eq!(names.1, "A New Stereophonic Sound Spectacular");
    let names = scrobble_url("https://last.fm/music/Sigur+R%C3%B3s/%28+%29/extra").unwrap();
    assert_eq!(names.0, "Sigur R\u{f3}s");
    assert_eq!(names.1, "( )");
}

#[test]
fn url_that_is_no_album_page_is_refused() {
    assert!(matches!(scrobble_url("not a url"), Err(UrlError::Invalid(_))));
    assert!(matches!(scrobble_url("mailto:someone@last.fm"), Err(UrlError::NoPath)));
    assert!(matches!(
        scrobble_url("https://example.com/music/Artist/Album"),
        Err(UrlError::ForeignHost)
    ));
    assert!(matches!(scrobble_url("https://www.last.fm/music/Artist"), Err(UrlError::WrongFormat)));
    assert!(matches!(
        scrobble_url("https://www.last.fm/user/Artist/Album"),
        Err(UrlError::WrongFormat)
    ));
    assert!(matches!(
        scrobble_url("https://www.last.fm/music/%FF/Album"),
        Err(UrlError::BadEncoding(_))
    ));
    assert!(matches!(
        scrobble_url("https://www.last.fm/music/Artist/%FF"),
        Err(UrlError::BadEncoding(_))
    ));
}

#[test]
fn url_parts_are_read_in_order() {
    let parts = UrlParts {
        host: Some("www.last.fm".to_string()),
        path_segments: Some(vec!["music".to_string(), "A+B".to_string(), "C%20D".to_string()]),
    };
    let names = album_from_url_parts(&parts).unwrap();
    assert_eq!(names.0, "A B");
    assert_eq!(names.1, "C D");
    let no_path = UrlParts { host: None, path_segments: None };
    assert!(matches!(album_from_url_parts(&no_path), Err(UrlError::NoPath)));
    let no_host = UrlParts { host: None, path_segments: Some(vec![]) };
    assert!(matches!(album_from_url_parts(&no_host), Err(UrlError::ForeignHost)));
}

#[test]
fn scrobbling_errors_have_words() {
    assert_eq!(ScrobbleError::NotAllScrobbled.message(), "Not all tracks scrobbled");
    assert_eq!(ScrobbleError::OutOfRange.message(), "Time out of range");
    assert_eq!(ScrobbleError::Api(ApiError::Json).message(), "json error");
    assert_eq!(UrlError::ForeignHost.message(), "URL is not from last.fm");
    assert_eq!(UrlError::NoPath.message(), "Cannot parse path");
    assert_eq!(
        UrlError::WrongFormat.message(),
        "URL must be in format https://www.last.fm/music/Artist/Album+Name"
    );
    assert_eq!(UrlError::Invalid("relative URL without a base".to_string()).message(), "relative URL without a base");
    assert_eq!(UrlError::BadEncoding("bad".to_string()).message(), "bad");
}

#[test]
fn clock_gives_an_instant_of_these_days() {
    let first = now_local();
    let second = now_local();
    assert!(first.nanoseconds < 1_000_000_000);
    assert!(first.seconds > 1_600_000_000);
    assert!(second.seconds >= first.seconds);
    assert!(second.seconds - first.seconds < 60);
}

#[test]
fn album_command_ends_its_timeline_at_the_offset_before_now() {
    let api = api();
    let before = now_local().seconds;
    let start = Some(Offset { seconds: 3600, nanoseconds: 0 });
    let (timeline, action) =
        scrobble_album(&api, "Artist".to_string(), &album_reply(&[180, 200, 220]), true, start);
    let after = now_local().seconds;
    assert!(matches!(action, TimelineAction::Finish(Ok(()))));
    let times = stamps(&timeline.plan);
    assert!(before - 3600 <= times[2] && times[2] <= after - 3600);
    assert_eq!(times[1], times[2] - 225);
    assert_eq!(times[0], times[2] - 430);
}

#[test]
fn track_command_scrobbles_at_the_time_of_the_call() {
    let api = api();
    let before = now_local().seconds;
    let request = scrobble_track_request(&api, "Hooverphonic".into(), "Eden".into(), None).unwrap();
    let after = now_local().seconds;
    let when: i64 = form_value(&request, "timestamp").parse().unwrap();
    assert!(before <= when && when <= after);
}

#[test]
fn times_of_a_looked_up_album_run_in_the_order_of_its_tracks() {
    let api = api();
    let (timeline, _) = scrobble_album_at(
        &api,
        "Artist".to_string(),
        &album_reply(&[0, 0, 17, -30, 240]),
        true,
        at(T),
        None,
    );
    let times = stamps(&timeline.plan);
    assert_eq!(times, vec![T - 577, T - 572, T - 550, T - 245, T]);
    assert!(times.windows(2).all(|pair| pair[0] < pair[1]));
}
