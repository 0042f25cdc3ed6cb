//! The timeline of an album and the decisions of the scrobbling commands.
//!
//! The tracks of an album are given times as if they had been played one
//! after the other, with a fixed gap between them, so that the last one ends
//! at the reference time less the offset. The time of a track is the time
//! at which it ends.

use crate::json::Json;
use crate::lastfmapi::{
    album_of, album_reply, failure_message, lemma_album_durations, scrobble_params, scrobble_reply, signed, Album,
    ApiError, Failure, HttpReply, HttpRequest, LastfmApi, RequestBody, Track, TrackModel,
};
use crate::text::{plus_as_space, plus_to_space, str_eq};
use crate::utils::now_local;
use vstd::prelude::*;
use vstd::string::*;

verus! {

/// The seconds between the end of a track and the start of the next.
pub const TRACK_GAP: i64 = 5;

/// The nanoseconds of a second.
pub const NANOS_PER_SECOND: i64 = 1_000_000_000;

/// An instant: seconds of Unix time, and nanoseconds from that second on.
#[derive(Clone, Copy, Debug)]
pub struct Moment {
    pub seconds: i64,
    pub nanoseconds: u32,
}

/// A span of time that is not negative: seconds, and nanoseconds on top.
#[derive(Clone, Copy, Debug)]
pub struct Offset {
    pub seconds: u64,
    pub nanoseconds: u32,
}

/// The second of Unix time in which the instant `offset` before `reference`
/// lies.
pub open spec fn end_second(reference: Moment, offset: Offset) -> int {
    reference.seconds - offset.seconds + (reference.nanoseconds - offset.nanoseconds)
        / NANOS_PER_SECOND as int
}

/// The playing time of all tracks together.
pub open spec fn total_duration(tracks: Seq<TrackModel>) -> int
    decreases tracks.len(),
{
    if tracks.len() == 0 {
        0
    } else {
        total_duration(tracks.drop_last()) + tracks.last().duration
    }
}

/// The time at which the first track starts, for the last one to end at
/// `end`: before `end` by the playing time of all tracks and by the gaps
/// between them.
pub open spec fn start_time(tracks: Seq<TrackModel>, end: int) -> int {
    end - total_duration(tracks) - (tracks.len() - 1) * TRACK_GAP
}

/// The time at which the track after the first `count` tracks starts: the
/// start time, and for each of those tracks its playing time and the gap
/// behind it.
pub open spec fn cursor(tracks: Seq<TrackModel>, end: int, count: int) -> int
    decreases count,
{
    if count <= 0 {
        start_time(tracks, end)
    } else {
        cursor(tracks, end, count - 1) + tracks[count - 1].duration + TRACK_GAP
    }
}

/// The time of the track at `index`: the time at which it ends, which is
/// its playing time after the time at which it starts.
pub open spec fn timestamp(tracks: Seq<TrackModel>, end: int, index: int) -> int {
    cursor(tracks, end, index) + tracks[index].duration
}

/// Whether the time of every track lies within `i64`.
pub open spec fn timeline_fits(tracks: Seq<TrackModel>, end: int) -> bool {
    forall|i: int|
        0 <= i < tracks.len() ==> i64::MIN <= #[trigger] timestamp(tracks, end, i) <= i64::MAX
}

/// The track after the first `count` tracks starts after the start time by
/// the playing time of those tracks and one gap for each.
pub proof fn lemma_cursor(tracks: Seq<TrackModel>, end: int, count: int)
    requires
        0 <= count <= tracks.len(),
    ensures
        cursor(tracks, end, count) == start_time(tracks, end) + total_duration(tracks.take(count))
            + count * TRACK_GAP,
    decreases count,
{
    if count > 0 {
        lemma_cursor(tracks, end, count - 1);
        assert(tracks.take(count).drop_last() =~= tracks.take(count - 1));
    }
}

/// The time of the last track is `end`: the timeline ends exactly at the
/// reference time less the offset.
pub proof fn lemma_last_timestamp(tracks: Seq<TrackModel>, end: int)
    requires
        tracks.len() > 0,
    ensures
        timestamp(tracks, end, tracks.len() - 1) == end,
{
    let last = tracks.len() - 1;
    lemma_cursor(tracks, end, last);
}

/// The time of the first track is its playing time after the start time,
/// and the time of each later track is the gap and its own playing time
/// after the time of the track before it.
pub proof fn lemma_timestamp_steps(tracks: Seq<TrackModel>, end: int, index: int)
    requires
        0 <= index < tracks.len(),
    ensures
        index == 0 ==> timestamp(tracks, end, index) == start_time(tracks, end)
            + tracks[0].duration,
        index > 0 ==> timestamp(tracks, end, index) == timestamp(tracks, end, index - 1) + TRACK_GAP
            + tracks[index].duration,
{
}

/// Where no playing time is negative, the times run in the order of the
/// tracks: a later track has a later time than an earlier one.
pub proof fn lemma_timeline_in_order(tracks: Seq<TrackModel>, end: int, earlier: int, later: int)
    requires
        0 <= earlier < later < tracks.len(),
        forall|i: int| 0 <= i < tracks.len() ==> (#[trigger] tracks[i]).duration >= 0,
    ensures
        timestamp(tracks, end, earlier) < timestamp(tracks, end, later),
    decreases later - earlier,
{
    lemma_timestamp_steps(tracks, end, later);
    if earlier + 1 < later {
        lemma_timeline_in_order(tracks, end, earlier, later - 1);
    }
}

/// The times of the tracks of an album that a document holds run in the
/// order of the tracks.
pub proof fn lemma_album_timeline_in_order(document: Json, end: int, earlier: int, later: int)
    requires
        album_of(document) matches Ok(album) && 0 <= earlier < later < album.tracks.len(),
    ensures
        timestamp(album_of(document)->Ok_0.tracks, end, earlier) < timestamp(
            album_of(document)->Ok_0.tracks,
            end,
            later,
        ),
{
    let tracks = album_of(document)->Ok_0.tracks;
    assert forall|i: int| 0 <= i < tracks.len() implies (#[trigger] tracks[i]).duration >= 0 by {
        lemma_album_durations(document, i);
    }
    lemma_timeline_in_order(tracks, end, earlier, later);
}

/// The second in which the instant `offset` before `reference` lies.
fn end_of(reference: Moment, offset: Offset) -> (end: i128)
    ensures
        end == end_second(reference, offset),
{
    let nanos: i64 = reference.nanoseconds as i64 - offset.nanoseconds as i64;
    let carry: i64 = if nanos >= 0 {
        nanos / NANOS_PER_SECOND
    } else {
        -((-nanos + (NANOS_PER_SECOND - 1)) / NANOS_PER_SECOND)
    };
    reference.seconds as i128 - offset.seconds as i128 + carry as i128
}

/// One entry of a timeline: a track and the time it is scrobbled at, in
/// seconds of Unix time.
#[derive(Debug)]
pub struct PlannedScrobble {
    pub track: Track,
    pub timestamp: i64,
}

/// The model of a [`PlannedScrobble`].
pub struct PlanModel {
    pub track: TrackModel,
    pub timestamp: int,
}

impl View for PlannedScrobble {
    type V = PlanModel;

    open spec fn view(&self) -> PlanModel {
        PlanModel { track: self.track@, timestamp: self.timestamp as int }
    }
}

/// The models of a list of planned scrobbles.
pub open spec fn plan_models(plan: Seq<PlannedScrobble>) -> Seq<PlanModel> {
    plan.map_values(|entry: PlannedScrobble| entry@)
}

/// The timeline of a list of tracks: each track, in order, with its time.
pub open spec fn planned(tracks: Seq<TrackModel>, end: int) -> Seq<PlanModel> {
    Seq::new(
        tracks.len(),
        |i: int| PlanModel { track: tracks[i], timestamp: timestamp(tracks, end, i) },
    )
}

/// The timeline of an album for a reference time and an offset: every track
/// with its time, or nothing where a time lies outside `i64`.
pub fn plan_timeline(album: &Album, reference: Moment, offset: Offset) -> (plan: Option<
    Vec<PlannedScrobble>,
>)
    ensures
        plan is Some <==> timeline_fits(album@.tracks, end_second(reference, offset)),
        plan matches Some(entries) ==> plan_models(entries@) == planned(
            album@.tracks,
            end_second(reference, offset),
        ),
        plan matches Some(entries) ==> entries@.len() == album.tracks@.len() && forall|i: int|
            0 <= i < entries@.len() ==> (#[trigger] entries@[i]).track@ == album.tracks@[i]@
                && entries@[i].timestamp == timestamp(
                album@.tracks,
                end_second(reference, offset),
                i,
            ),
{
    let ghost tracks = album@.tracks;
    let ghost end = end_second(reference, offset);
    let count = album.tracks.len();
    let mut backwards: Vec<i64> = Vec::new();
    if count > 0 {
        let mut time: i128 = end_of(reference, offset);
        let mut left: usize = count;
        proof {
            lemma_last_timestamp(tracks, end);
        }
        while left > 0
            invariant
                0 <= left <= count,
                count == album.tracks.len(),
                tracks == album@.tracks,
                end == end_second(reference, offset),
                backwards@.len() == count - left,
                left > 0 ==> time == timestamp(tracks, end, left - 1),
                forall|k: int|
                    left <= k < count ==> #[trigger] backwards@[count - 1 - k] == timestamp(
                        tracks,
                        end,
                        k,
                    ),
            decreases left,
        {
            if time < i64::MIN as i128 || time > i64::MAX as i128 {
                return None;
            }
            backwards.push(time as i64);
            left -= 1;
            proof {
                lemma_timestamp_steps(tracks, end, left as int);
            }
            time = time - album.tracks[left].duration as i128 - TRACK_GAP as i128;
        }
    }
    let mut plan: Vec<PlannedScrobble> = Vec::new();
    let mut i: usize = 0;
    while i < count
        invariant
            0 <= i <= count,
            count == album.tracks.len(),
            tracks == album@.tracks,
            backwards@.len() == count,
            plan@.len() == i,
            forall|k: int|
                0 <= k < count ==> #[trigger] backwards@[count - 1 - k] == timestamp(tracks, end, k),
            forall|k: int| 0 <= k < i ==> (#[trigger] plan@[k])@ == planned(tracks, end)[k],
        decreases count - i,
    {
        let track = Track {
            title: album.tracks[i].title.clone(),
            duration: album.tracks[i].duration,
        };
        plan.push(PlannedScrobble { track, timestamp: backwards[count - 1 - i] });
        i += 1;
    }
    proof {
        assert forall|k: int| 0 <= k < tracks.len() implies i64::MIN <= #[trigger] timestamp(
            tracks,
            end,
            k,
        ) <= i64::MAX by {
            assert(backwards@[count - 1 - k] == timestamp(tracks, end, k));
        }
    }
    Some(plan)
}

/// Why a scrobbling command failed.
#[derive(Debug)]
pub enum ScrobbleError {
    /// A call of the service failed.
    Api(ApiError),
    /// Every call went through, and the service ignored a track or more.
    NotAllScrobbled,
    /// A time lies outside what `i64` holds.
    OutOfRange,
}

/// The model of a [`ScrobbleError`].
pub enum ScrobbleFailure {
    Api(Failure),
    NotAllScrobbled,
    OutOfRange,
}

impl View for ScrobbleError {
    type V = ScrobbleFailure;

    open spec fn view(&self) -> ScrobbleFailure {
        match self {
            ScrobbleError::Api(error) => ScrobbleFailure::Api(error@),
            ScrobbleError::NotAllScrobbled => ScrobbleFailure::NotAllScrobbled,
            ScrobbleError::OutOfRange => ScrobbleFailure::OutOfRange,
        }
    }
}

/// The words of the failure of a scrobbling command.
pub open spec fn scrobble_failure_message(failure: ScrobbleFailure) -> Seq<char> {
    match failure {
        ScrobbleFailure::Api(inner) => failure_message(inner),
        ScrobbleFailure::NotAllScrobbled => "Not all tracks scrobbled"@,
        ScrobbleFailure::OutOfRange => "Time out of range"@,
    }
}

impl ScrobbleError {
    /// The error in words.
    pub fn message(&self) -> (words: String)
        ensures
            words@ == scrobble_failure_message(self@),
    {
        match self {
            ScrobbleError::Api(inner) => inner.message(),
            ScrobbleError::NotAllScrobbled => String::from_str("Not all tracks scrobbled"),
            ScrobbleError::OutOfRange => String::from_str("Time out of range"),
        }
    }
}

/// The model of the result of a command.
pub open spec fn command_result(result: Result<(), ScrobbleError>) -> Result<(), ScrobbleFailure> {
    match result {
        Ok(_) => Ok(()),
        Err(error) => Err(error@),
    }
}

/// Whether the outcome of one scrobble ends the batch: every error does but
/// that of an ignored track.
pub open spec fn is_fatal(outcome: Result<(), Failure>) -> bool {
    outcome matches Err(failure) && !(failure is Unscrobbled)
}

/// The note of ignored tracks after one more outcome.
pub open spec fn noted(any_unscrobbled: bool, outcome: Result<(), Failure>) -> bool {
    any_unscrobbled || outcome is Err
}

/// The result of a batch in which every call went through: a failure where
/// a track was ignored, a success where none was.
pub open spec fn verdict(any_unscrobbled: bool) -> Result<(), ScrobbleFailure> {
    if any_unscrobbled {
        Err(ScrobbleFailure::NotAllScrobbled)
    } else {
        Ok(())
    }
}

/// The result of a batch from the note of ignored tracks so far and the
/// outcomes still to come, in their order: the first fatal outcome ends the
/// batch with its error, an ignored track is noted and the batch goes on,
/// and after the last outcome the note decides.
pub open spec fn batch_from(any_unscrobbled: bool, outcomes: Seq<Result<(), Failure>>) -> Result<
    (),
    ScrobbleFailure,
>
    decreases outcomes.len(),
{
    if outcomes.len() == 0 {
        verdict(any_unscrobbled)
    } else if is_fatal(outcomes[0]) {
        Err(ScrobbleFailure::Api(outcomes[0]->Err_0))
    } else {
        batch_from(noted(any_unscrobbled, outcomes[0]), outcomes.drop_first())
    }
}

/// The result of a whole batch by the outcomes of its scrobbles.
pub open spec fn batch_result(outcomes: Seq<Result<(), Failure>>) -> Result<(), ScrobbleFailure> {
    batch_from(false, outcomes)
}

/// A batch without a fatal outcome fails as not wholly scrobbled where a
/// track was ignored, before it or in it, and succeeds where none was.
pub proof fn lemma_batch_without_fatal(any_unscrobbled: bool, outcomes: Seq<Result<(), Failure>>)
    requires
        forall|i: int| 0 <= i < outcomes.len() ==> !is_fatal(#[trigger] outcomes[i]),
    ensures
        batch_from(any_unscrobbled, outcomes) == verdict(
            any_unscrobbled || exists|i: int|
                0 <= i < outcomes.len() && (#[trigger] outcomes[i]) is Err,
        ),
    decreases outcomes.len(),
{
    if outcomes.len() > 0 {
        let rest = outcomes.drop_first();
        assert forall|i: int| 0 <= i < rest.len() implies !is_fatal(#[trigger] rest[i]) by {
            assert(rest[i] == outcomes[i + 1]);
        }
        lemma_batch_without_fatal(noted(any_unscrobbled, outcomes[0]), rest);
        if exists|i: int| 0 <= i < rest.len() && (#[trigger] rest[i]) is Err {
            let i = choose|i: int| 0 <= i < rest.len() && (#[trigger] rest[i]) is Err;
            assert(outcomes[i + 1] is Err);
        }
        if exists|i: int| 0 <= i < outcomes.len() && (#[trigger] outcomes[i]) is Err {
            let i = choose|i: int| 0 <= i < outcomes.len() && (#[trigger] outcomes[i]) is Err;
            if i > 0 {
                assert(rest[i - 1] is Err);
            }
        }
    }
}

/// A batch ends with the error of its first fatal outcome, whatever was
/// accepted or ignored before it and whatever would come after it.
pub proof fn lemma_batch_with_fatal(
    any_unscrobbled: bool,
    outcomes: Seq<Result<(), Failure>>,
    first: int,
)
    requires
        0 <= first < outcomes.len(),
        is_fatal(outcomes[first]),
        forall|i: int| 0 <= i < first ==> !is_fatal(#[trigger] outcomes[i]),
    ensures
        batch_from(any_unscrobbled, outcomes) == Err::<(), ScrobbleFailure>(
            ScrobbleFailure::Api(outcomes[first]->Err_0),
        ),
    decreases outcomes.len(),
{
    if first > 0 {
        let rest = outcomes.drop_first();
        assert(!is_fatal(outcomes[0]));
        assert forall|i: int| 0 <= i < first - 1 implies !is_fatal(#[trigger] rest[i]) by {
            assert(rest[i] == outcomes[i + 1]);
        }
        lemma_batch_with_fatal(noted(any_unscrobbled, outcomes[0]), rest, first - 1);
    }
}

/// The success of a batch is that every track was accepted: a batch in
/// which every call went through and a track was ignored fails as not wholly
/// scrobbled, though no call failed.
pub proof fn lemma_batch_result(outcomes: Seq<Result<(), Failure>>)
    ensures
        batch_result(outcomes) is Ok <==> forall|i: int|
            0 <= i < outcomes.len() ==> (#[trigger] outcomes[i]) is Ok,
        (forall|i: int| 0 <= i < outcomes.len() ==> !is_fatal(#[trigger] outcomes[i])) && (exists|
            i: int,
        |
            0 <= i < outcomes.len() && (#[trigger] outcomes[i]) is Err) ==> batch_result(outcomes)
            == Err::<(), ScrobbleFailure>(ScrobbleFailure::NotAllScrobbled),
{
    if forall|i: int| 0 <= i < outcomes.len() ==> !is_fatal(#[trigger] outcomes[i]) {
        lemma_batch_without_fatal(false, outcomes);
    } else {
        let first = first_fatal(outcomes, 0);
        lemma_first_fatal(outcomes, 0);
        lemma_batch_with_fatal(false, outcomes, first);
        assert(outcomes[first] is Err);
    }
}

/// The place of the first fatal outcome at or after `from`, or the length
/// where there is none.
pub open spec fn first_fatal(outcomes: Seq<Result<(), Failure>>, from: int) -> int
    decreases outcomes.len() - from,
{
    if from >= outcomes.len() {
        outcomes.len() as int
    } else if is_fatal(outcomes[from]) {
        from
    } else {
        first_fatal(outcomes, from + 1)
    }
}

/// No outcome from `from` to the first fatal one is fatal, and where any
/// outcome from `from` on is fatal, the first fatal one lies within the list.
pub proof fn lemma_first_fatal(outcomes: Seq<Result<(), Failure>>, from: int)
    requires
        0 <= from <= outcomes.len(),
    ensures
        from <= first_fatal(outcomes, from) <= outcomes.len(),
        forall|i: int|
            from <= i < first_fatal(outcomes, from) ==> !is_fatal(#[trigger] outcomes[i]),
        first_fatal(outcomes, from) < outcomes.len() ==> is_fatal(
            outcomes[first_fatal(outcomes, from)],
        ),
        (exists|i: int| from <= i < outcomes.len() && is_fatal(#[trigger] outcomes[i]))
            ==> first_fatal(outcomes, from) < outcomes.len(),
    decreases outcomes.len() - from,
{
    if from < outcomes.len() && !is_fatal(outcomes[from]) {
        lemma_first_fatal(outcomes, from + 1);
    }
}

/// A track that the service ignored: its place in the plan and the reason
/// that the service gave.
#[derive(Debug)]
pub struct IgnoredTrack {
    pub position: usize,
    pub reason: String,
}

/// A batch of scrobbles in progress: the plan, how many of its entries are
/// settled, and the tracks among them that were ignored.
#[derive(Debug)]
pub struct Timeline {
    pub artist: String,
    pub plan: Vec<PlannedScrobble>,
    pub position: usize,
    pub ignored: Vec<IgnoredTrack>,
}

/// What the caller of a batch does next.
#[derive(Debug)]
pub enum TimelineAction {
    /// Send the request and hand the reply to [`scrobble_timeline`].
    Submit(HttpRequest),
    /// The batch is over, with this result.
    Finish(Result<(), ScrobbleError>),
}

/// Whether `request` is the signed scrobble of `entry` for `artist`.
pub open spec fn submits(
    request: HttpRequest,
    api: LastfmApi,
    artist: Seq<char>,
    entry: PlanModel,
) -> bool {
    &&& request.url@ == api.api_host@ + "/2.0"@
    &&& request.body matches RequestBody::Form(params) && params@ == signed(
        scrobble_params(
            api.auth_config.api_key@,
            api.auth_config.session_key@,
            artist,
            entry.track.title,
            entry.timestamp,
        ),
        api.auth_config.secret_key@,
    )
}

/// Whether `action` is what a batch in the state `timeline` asks for: the
/// scrobble of the first entry that is not settled, or, after the last
/// entry, the end of the batch with its verdict.
pub open spec fn follows(action: TimelineAction, api: LastfmApi, timeline: Timeline) -> bool {
    if timeline.position < timeline.plan@.len() {
        action matches TimelineAction::Submit(request) && submits(
            request,
            api,
            timeline.artist@,
            timeline.plan@[timeline.position as int]@,
        )
    } else {
        action matches TimelineAction::Finish(result) && command_result(result) == verdict(
            timeline.any_unscrobbled(),
        )
    }
}

/// Whether `next` is how a batch in the state `timeline` goes on from the
/// reply to the scrobble that it asked for. An accepted track settles its
/// entry; an ignored track settles it too and is recorded with its reason;
/// every other error ends the batch at once with that error. A reply that no
/// scrobble asked for changes nothing.
pub open spec fn timeline_follows(
    api: LastfmApi,
    timeline: Timeline,
    reply: HttpReply,
    next: (Timeline, TimelineAction),
) -> bool {
    let outcome = scrobble_reply(reply);
    &&& next.0.artist == timeline.artist
    &&& next.0.plan == timeline.plan
    &&& if timeline.position >= timeline.plan@.len() {
        next.0 == timeline && follows(next.1, api, next.0)
    } else if is_fatal(outcome) {
        &&& next.0.position == timeline.plan@.len()
        &&& next.0.ignored == timeline.ignored
        &&& next.1 matches TimelineAction::Finish(result) && command_result(result) == Err::<
            (),
            ScrobbleFailure,
        >(ScrobbleFailure::Api(outcome->Err_0))
    } else {
        &&& next.0.position == timeline.position + 1
        &&& next.0.any_unscrobbled() == noted(timeline.any_unscrobbled(), outcome)
        &&& match outcome {
            Err(Failure::Unscrobbled(reason)) => {
                &&& next.0.ignored@.len() == timeline.ignored@.len() + 1
                &&& next.0.ignored@.drop_last() == timeline.ignored@
                &&& next.0.ignored@.last().position == timeline.position
                &&& next.0.ignored@.last().reason@ == reason
            },
            _ => next.0.ignored == timeline.ignored,
        }
        &&& follows(next.1, api, next.0)
    }
}

impl Timeline {
    /// Whether any track of the batch was ignored.
    pub open spec fn any_unscrobbled(self) -> bool {
        self.ignored@.len() > 0
    }

    /// A batch at its start.
    pub fn new(artist: String, plan: Vec<PlannedScrobble>) -> (timeline: Timeline)
        ensures
            timeline.artist == artist,
            timeline.plan == plan,
            timeline.position == 0,
            timeline.ignored@.len() == 0,
    {
        Timeline { artist, plan, position: 0, ignored: Vec::new() }
    }

    /// What the batch asks for in its state.
    pub fn next_action(&self, api: &LastfmApi) -> (action: TimelineAction)
        ensures
            follows(action, *api, *self),
    {
        if self.position < self.plan.len() {
            let entry = &self.plan[self.position];
            TimelineAction::Submit(
                api.scrobble_request(
                    self.artist.clone(),
                    entry.track.title.clone(),
                    entry.timestamp,
                ),
            )
        } else if self.ignored.len() > 0 {
            TimelineAction::Finish(Err(ScrobbleError::NotAllScrobbled))
        } else {
            TimelineAction::Finish(Ok(()))
        }
    }
}

/// Takes the reply to the scrobble that a batch asked for, and says what
/// the batch asks for next.
pub fn scrobble_timeline(api: &LastfmApi, timeline: Timeline, reply: &HttpReply) -> (next: (
    Timeline,
    TimelineAction,
))
    ensures
        timeline_follows(*api, timeline, *reply, next),
{
    if timeline.position >= timeline.plan.len() {
        let action = timeline.next_action(api);
        return (timeline, action);
    }
    let Timeline { artist, plan, position, ignored } = timeline;
    match api.scrobble(reply) {
        Ok(_) => {
            let next = Timeline { artist, plan, position: position + 1, ignored };
            let action = next.next_action(api);
            (next, action)
        },
        Err(ApiError::Unscrobbled(reason)) => {
            let mut ignored = ignored;
            let ghost before = ignored@;
            ignored.push(IgnoredTrack { position, reason });
            assert(ignored@.drop_last() =~= before);
            let next = Timeline { artist, plan, position: position + 1, ignored };
            let action = next.next_action(api);
            (next, action)
        },
        Err(error) => {
            let settled = plan.len();
            let next = Timeline { artist, plan, position: settled, ignored };
            (next, TimelineAction::Finish(Err(ScrobbleError::Api(error))))
        },
    }
}

/// The offset that a command was given, or none at all.
pub open spec fn offset_or_zero(start: Option<Offset>) -> Offset {
    match start {
        Some(offset) => offset,
        None => Offset { seconds: 0, nanoseconds: 0 },
    }
}

/// Whether `next` is how an album command goes on from the reply to its
/// album request, at the time `now` and with the offset `start`. An album
/// that cannot be read ends the command with that error, and a timeline
/// outside `i64` ends it as out of range; nothing is planned then. Else the
/// plan is the timeline of the album. A dry run ends at once with a success
/// and every entry of the plan left as it is; a real run starts the batch.
pub open spec fn album_started(
    api: LastfmApi,
    artist: String,
    reply: HttpReply,
    dryrun: bool,
    now: Moment,
    start: Option<Offset>,
    next: (Timeline, TimelineAction),
) -> bool {
    &&& next.0.artist == artist
    &&& next.0.ignored@.len() == 0
    &&& match album_reply(reply) {
        Err(failure) => {
            &&& next.0.plan@.len() == 0
            &&& next.0.position == 0
            &&& next.1 matches TimelineAction::Finish(result) && command_result(result) == Err::<
                (),
                ScrobbleFailure,
            >(ScrobbleFailure::Api(failure))
        },
        Ok(album) => {
            let end = end_second(now, offset_or_zero(start));
            if !timeline_fits(album.tracks, end) {
                &&& next.0.plan@.len() == 0
                &&& next.0.position == 0
                &&& next.1 matches TimelineAction::Finish(result) && command_result(result)
                    == Err::<(), ScrobbleFailure>(ScrobbleFailure::OutOfRange)
            } else {
                &&& plan_models(next.0.plan@) == planned(album.tracks, end)
                &&& if dryrun {
                    &&& next.0.position == next.0.plan@.len()
                    &&& next.1 matches TimelineAction::Finish(result) && result is Ok
                } else {
                    &&& next.0.position == 0
                    &&& follows(next.1, api, next.0)
                }
            }
        },
    }
}

/// Takes the reply to the album request of an album command, and says what
/// the command asks for next, for the time `now`.
pub fn scrobble_album_at(
    api: &LastfmApi,
    artist: String,
    reply: &HttpReply,
    dryrun: bool,
    now: Moment,
    start: Option<Offset>,
) -> (next: (Timeline, TimelineAction))
    ensures
        album_started(*api, artist, *reply, dryrun, now, start, next),
{
    let offset = match start {
        Some(offset) => offset,
        None => Offset { seconds: 0, nanoseconds: 0 },
    };
    let album = match api.get_album_tracks(reply) {
        Ok(album) => album,
        Err(error) => {
            return (
                Timeline::new(artist, Vec::new()),
                TimelineAction::Finish(Err(ScrobbleError::Api(error))),
            );
        },
    };
    match plan_timeline(&album, now, offset) {
        None => (
            Timeline::new(artist, Vec::new()),
            TimelineAction::Finish(Err(ScrobbleError::OutOfRange)),
        ),
        Some(plan) => {
            if dryrun {
                let settled = plan.len();
                (
                    Timeline { artist, plan, position: settled, ignored: Vec::new() },
                    TimelineAction::Finish(Ok(())),
                )
            } else {
                let timeline = Timeline::new(artist, plan);
                let action = timeline.next_action(api);
                (timeline, action)
            }
        },
    }
}

/// Takes the reply to the album request of an album command, and says what
/// the command asks for next, for the time at which it is called: the
/// timeline ends at the offset `start` before that time.
pub fn scrobble_album(
    api: &LastfmApi,
    artist: String,
    reply: &HttpReply,
    dryrun: bool,
    start: Option<Offset>,
) -> (next: (Timeline, TimelineAction))
    ensures
        exists|now: Moment|
            now.nanoseconds < 1_000_000_000 && #[trigger] album_started(
                *api,
                artist,
                *reply,
                dryrun,
                now,
                start,
                next,
            ),
{
    scrobble_album_at(api, artist, reply, dryrun, now_local(), start)
}

/// Whether `request` is the request of a track command at the time `now`
/// with the offset `start`: the scrobble of the track at the time `start`
/// before `now`, or nothing where that time lies outside `i64`.
pub open spec fn track_requested(
    api: LastfmApi,
    artist: String,
    track: String,
    now: Moment,
    start: Option<Offset>,
    request: Option<HttpRequest>,
) -> bool {
    let when = end_second(now, offset_or_zero(start));
    &&& request is Some <==> i64::MIN <= when <= i64::MAX
    &&& request matches Some(scrobble) ==> submits(
        scrobble,
        api,
        artist@,
        PlanModel { track: TrackModel { title: track@, duration: 0 }, timestamp: when },
    )
}

/// The request of a track command, for the time `now`.
pub fn scrobble_track_request_at(
    api: &LastfmApi,
    artist: String,
    track: String,
    now: Moment,
    start: Option<Offset>,
) -> (request: Option<HttpRequest>)
    ensures
        track_requested(*api, artist, track, now, start, request),
{
    let offset = match start {
        Some(offset) => offset,
        None => Offset { seconds: 0, nanoseconds: 0 },
    };
    let when = end_of(now, offset);
    if when < i64::MIN as i128 || when > i64::MAX as i128 {
        None
    } else {
        Some(api.scrobble_request(artist, track, when as i64))
    }
}

/// The request of a track command, for the time at which it is called.
pub fn scrobble_track_request(
    api: &LastfmApi,
    artist: String,
    track: String,
    start: Option<Offset>,
) -> (request: Option<HttpRequest>)
    ensures
        exists|now: Moment|
            now.nanoseconds < 1_000_000_000 && #[trigger] track_requested(
                *api,
                artist,
                track,
                now,
                start,
                request,
            ),
{
    scrobble_track_request_at(api, artist, track, now_local(), start)
}

/// The result of a track command by the outcome of its scrobble: a track
/// that the service ignored is no failure of the command, and the reason
/// that the service gave is handed on.
pub open spec fn lenient(outcome: Result<(), Failure>) -> Result<Option<Seq<char>>, Failure> {
    match outcome {
        Ok(_) => Ok(None),
        Err(Failure::Unscrobbled(reason)) => Ok(Some(reason)),
        Err(failure) => Err(failure),
    }
}

/// The model of the result of a track command.
pub open spec fn track_command_result(result: Result<Option<String>, ApiError>) -> Result<
    Option<Seq<char>>,
    Failure,
> {
    match result {
        Ok(Some(reason)) => Ok(Some(reason@)),
        Ok(None) => Ok(None),
        Err(error) => Err(error@),
    }
}

/// Takes the reply to the scrobble of a track command, and gives the result
/// of the command: a success for a track that was accepted, a success with
/// the reason for a track that was ignored, and the error of every other
/// reply.
pub fn scrobble_track(api: &LastfmApi, reply: &HttpReply) -> (result: Result<
    Option<String>,
    ApiError,
>)
    ensures
        track_command_result(result) == lenient(scrobble_reply(*reply)),
{
    match api.scrobble(reply) {
        Ok(_) => Ok(None),
        Err(ApiError::Unscrobbled(reason)) => Ok(Some(reason)),
        Err(error) => Err(error),
    }
}

/// What the library reads of a URL: its host, if it has one, and the
/// segments of its path, if it has a path of segments.
#[derive(Debug)]
pub struct UrlParts {
    pub host: Option<String>,
    pub path_segments: Option<Vec<String>>,
}

/// What a text holds as the crate `url` reads it: the host and the path
/// segments of the URL, or the words of the error that `url` reports.
pub uninterp spec fn url_parts(text: Seq<char>) -> Result<UrlParts, Seq<char>>;

/// What a percent-encoded text stands for as `urlencoding` reads it: the
/// decoded text, or the words of the error where the decoded bytes are no
/// UTF-8.
pub uninterp spec fn percent_decoded(text: Seq<char>) -> Result<Seq<char>, Seq<char>>;

/// `url::Url::parse`, with `host_str` and `path_segments` of the URL that
/// it gives, or its error in the words of its `Display`.
#[verifier::external_body]
fn parse_url(text: &str) -> (parts: Result<UrlParts, String>)
    ensures
        match parts {
            Ok(read) => url_parts(text@) == Ok::<UrlParts, Seq<char>>(read),
            Err(message) => url_parts(text@) == Err::<UrlParts, Seq<char>>(message@),
        },
{
    match url::Url::parse(text) {
        Ok(url) => Ok(
            UrlParts {
                host: url.host_str().map(str::to_owned),
                path_segments: url.path_segments().map(|all| all.map(str::to_owned).collect()),
            },
        ),
        Err(error) => Err(error.to_string()),
    }
}

/// `urlencoding::decode`: the decoded text, or its error in the words of
/// its `Display`.
#[verifier::external_body]
fn percent_decode(text: &str) -> (decoded: Result<String, String>)
    ensures
        match decoded {
            Ok(plain) => percent_decoded(text@) == Ok::<Seq<char>, Seq<char>>(plain@),
            Err(message) => percent_decoded(text@) == Err::<Seq<char>, Seq<char>>(message@),
        },
{
    match urlencoding::decode(text) {
        Ok(plain) => Ok(plain.into_owned()),
        Err(error) => Err(error.to_string()),
    }
}

/// Why a text is not the address of an album page.
#[derive(Debug)]
pub enum UrlError {
    /// The text is no URL.
    Invalid(String),
    /// The URL has no path of segments.
    NoPath,
    /// The URL is not from last.fm.
    ForeignHost,
    /// The path is not that of an album page.
    WrongFormat,
    /// A name in the path does not decode to text.
    BadEncoding(String),
}

/// The model of a [`UrlError`].
pub enum UrlFailure {
    Invalid(Seq<char>),
    NoPath,
    ForeignHost,
    WrongFormat,
    BadEncoding(Seq<char>),
}

impl View for UrlError {
    type V = UrlFailure;

    open spec fn view(&self) -> UrlFailure {
        match self {
            UrlError::Invalid(message) => UrlFailure::Invalid(message@),
            UrlError::NoPath => UrlFailure::NoPath,
            UrlError::ForeignHost => UrlFailure::ForeignHost,
            UrlError::WrongFormat => UrlFailure::WrongFormat,
            UrlError::BadEncoding(message) => UrlFailure::BadEncoding(message@),
        }
    }
}

/// The words of the failure to read an address.
pub open spec fn url_failure_message(failure: UrlFailure) -> Seq<char> {
    match failure {
        UrlFailure::Invalid(message) => message,
        UrlFailure::NoPath => "Cannot parse path"@,
        UrlFailure::ForeignHost => "URL is not from last.fm"@,
        UrlFailure::WrongFormat => {
            "URL must be in format https://www.last.fm/music/Artist/Album+Name"@
        },
        UrlFailure::BadEncoding(message) => message,
    }
}

impl UrlError {
    /// The error in words.
    pub fn message(&self) -> (words: String)
        ensures
            words@ == url_failure_message(self@),
    {
        match self {
            UrlError::Invalid(message) => message.clone(),
            UrlError::NoPath => String::from_str("Cannot parse path"),
            UrlError::ForeignHost => String::from_str("URL is not from last.fm"),
            UrlError::WrongFormat => String::from_str(
                "URL must be in format https://www.last.fm/music/Artist/Album+Name",
            ),
            UrlError::BadEncoding(message) => message.clone(),
        }
    }
}

/// The model of an artist and an album, or of the error in their place.
pub open spec fn names_result(result: Result<(String, String), UrlError>) -> Result<
    (Seq<char>, Seq<char>),
    UrlFailure,
> {
    match result {
        Ok(names) => Ok((names.0@, names.1@)),
        Err(error) => Err(error@),
    }
}

/// Whether a host is that of last.fm.
pub open spec fn is_lastfm(host: Option<String>) -> bool {
    host matches Some(name) && (name@ == "last.fm"@ || name@ == "www.last.fm"@)
}

/// The name that a path segment stands for: the segment decoded, with a
/// space in place of each plus sign that is left.
pub open spec fn name_of_segment(segment: Seq<char>) -> Result<Seq<char>, UrlFailure> {
    match percent_decoded(segment) {
        Ok(plain) => Ok(plus_as_space(plain)),
        Err(message) => Err(UrlFailure::BadEncoding(message)),
    }
}

/// The artist and the album of an album page by the parts of its URL. The
/// host is last.fm, and the path is `music`, the artist, the album, and
/// whatever follows.
pub open spec fn album_of_parts(parts: UrlParts) -> Result<(Seq<char>, Seq<char>), UrlFailure> {
    match parts.path_segments {
        None => Err(UrlFailure::NoPath),
        Some(path) => if !is_lastfm(parts.host) {
            Err(UrlFailure::ForeignHost)
        } else if path@.len() < 3 || path@[0]@ != "music"@ {
            Err(UrlFailure::WrongFormat)
        } else {
            match name_of_segment(path@[1]@) {
                Err(failure) => Err(failure),
                Ok(artist) => match name_of_segment(path@[2]@) {
                    Err(failure) => Err(failure),
                    Ok(album) => Ok((artist, album)),
                },
            }
        },
    }
}

/// The artist and the album of an album page by its address.
pub open spec fn album_of_url(text: Seq<char>) -> Result<(Seq<char>, Seq<char>), UrlFailure> {
    match url_parts(text) {
        Ok(parts) => album_of_parts(parts),
        Err(message) => Err(UrlFailure::Invalid(message)),
    }
}

/// The name that a path segment stands for.
fn name_from_segment(segment: &str) -> (name: Result<String, UrlError>)
    ensures
        match name {
            Ok(text) => name_of_segment(segment@) == Ok::<Seq<char>, UrlFailure>(text@),
            Err(error) => name_of_segment(segment@) == Err::<Seq<char>, UrlFailure>(error@),
        },
{
    match percent_decode(segment) {
        Ok(plain) => Ok(plus_to_space(plain.as_str())),
        Err(message) => Err(UrlError::BadEncoding(message)),
    }
}

/// The artist and the album of an album page by the parts of its URL.
pub fn album_from_url_parts(parts: &UrlParts) -> (names: Result<(String, String), UrlError>)
    ensures
        names_result(names) == album_of_parts(*parts),
{
    let path = match &parts.path_segments {
        Some(path) => path,
        None => {
            return Err(UrlError::NoPath);
        },
    };
    let from_lastfm = match &parts.host {
        Some(host) => str_eq(host.as_str(), "last.fm") || str_eq(host.as_str(), "www.last.fm"),
        None => false,
    };
    if !from_lastfm {
        return Err(UrlError::ForeignHost);
    }
    if path.len() < 3 || !str_eq(path[0].as_str(), "music") {
        return Err(UrlError::WrongFormat);
    }
    let artist = match name_from_segment(path[1].as_str()) {
        Ok(artist) => artist,
        Err(error) => {
            return Err(error);
        },
    };
    let album = match name_from_segment(path[2].as_str()) {
        Ok(album) => album,
        Err(error) => {
            return Err(error);
        },
    };
    Ok((artist, album))
}

/// Reads the address of an album page of last.fm, such as
/// `https://www.last.fm/music/Artist/Album+Name`, and gives the artist and
/// the album that a URL command then scrobbles as an album command does.
pub fn scrobble_url(url: &str) -> (names: Result<(String, String), UrlError>)
    ensures
        names_result(names) == album_of_url(url@),
{
    match parse_url(url) {
        Ok(parts) => album_from_url_parts(&parts),
        Err(message) => Err(UrlError::Invalid(message)),
    }
}

} // verus!
