//! The commands of the program: what the arguments of a call ask for.

use crate::scrobbler::Offset;
use crate::text::{digit_count, has_at_most_digits};
use vstd::prelude::*;
use vstd::string::*;

verus! {

/// The arguments of a call, as they were given.
#[derive(Debug)]
pub enum CliArgs {
    /// Scrobble an album of an artist, or a track of an artist.
    Scrobble {
        artist: String,
        album: Option<String>,
        track: Option<String>,
        /// Change nothing at the service.
        dryrun: bool,
        /// How long ago the last track ended, in words such as `1h 30min`.
        start: Option<String>,
    },
    /// Scrobble the album of an album page of last.fm.
    ScrobbleUrl { url: String, dryrun: bool, start: Option<String> },
    /// Obtain a session key for an API key and its secret.
    Auth { api_key: String, secret_key: String },
}

/// What a call asks for.
#[derive(Debug)]
pub enum Command {
    Authenticate { api_key: String, secret_key: String },
    ScrobbleAlbum { artist: String, album: String, dryrun: bool, start: Option<Offset> },
    ScrobbleTrack { artist: String, track: String, dryrun: bool, start: Option<Offset> },
    ScrobbleUrl { url: String, dryrun: bool, start: Option<Offset> },
}

/// Why a start offset cannot be used.
#[derive(Debug)]
pub enum StartError {
    /// The words are no duration.
    Unreadable(String),
    /// The duration has more seconds than `i64` holds.
    TooLong,
    /// The words hold more digits than are read.
    TooManyDigits,
}

/// The model of a [`StartError`].
pub enum StartFailure {
    Unreadable(Seq<char>),
    TooLong,
    TooManyDigits,
}

impl View for StartError {
    type V = StartFailure;

    open spec fn view(&self) -> StartFailure {
        match self {
            StartError::Unreadable(message) => StartFailure::Unreadable(message@),
            StartError::TooLong => StartFailure::TooLong,
            StartError::TooManyDigits => StartFailure::TooManyDigits,
        }
    }
}

/// The words of the failure to read a start offset.
pub open spec fn start_failure_message(failure: StartFailure) -> Seq<char> {
    match failure {
        StartFailure::Unreadable(message) => "Parse string start time: "@ + message,
        StartFailure::TooLong => "Start time out of range"@,
        StartFailure::TooManyDigits => "Start time has too many digits"@,
    }
}

impl StartError {
    /// The error in words.
    pub fn message(&self) -> (words: String)
        ensures
            words@ == start_failure_message(self@),
    {
        match self {
            StartError::Unreadable(message) => String::from_str("Parse string start time: ").concat(
                message.as_str(),
            ),
            StartError::TooLong => String::from_str("Start time out of range"),
            StartError::TooManyDigits => String::from_str("Start time has too many digits"),
        }
    }
}

/// Why the arguments of a call ask for nothing that can be done.
#[derive(Debug)]
pub enum CliError {
    /// Neither an album nor a track was named.
    WrongArguments,
    /// The start offset cannot be used.
    Start(StartError),
}

impl CliError {
    /// The error in words.
    pub fn message(&self) -> (words: String)
        ensures
            match self {
                CliError::WrongArguments => words@ == "Wrong arguments"@,
                CliError::Start(inner) => words@ == start_failure_message(inner@),
            },
    {
        match self {
            CliError::WrongArguments => String::from_str("Wrong arguments"),
            CliError::Start(inner) => inner.message(),
        }
    }
}

/// The duration that a text stands for as `humantime` reads it, in whole
/// seconds and nanoseconds on top, or the words of the error that
/// `humantime` reports.
pub uninterp spec fn humantime_duration(text: Seq<char>) -> Result<(u64, u32), Seq<char>>;

/// The most decimal digits in the words of a start offset that are read.
pub const MAX_START_DIGITS: usize = 11;

/// `humantime::parse_duration`, with `as_secs` and `subsec_nanos` of the
/// duration that it gives, or its error in the words of its `Display`. The
/// nanoseconds are less than a second. The parser adds up seconds in `u64`
/// and overflows where the sum is the largest `u64` and a carry comes on
/// top; `requires` keeps to texts of so few digits that no sum comes near.
#[verifier::external_body]
fn parse_duration(text: &str) -> (duration: Result<(u64, u32), String>)
    requires
        digit_count(text@) <= MAX_START_DIGITS,
    ensures
        match duration {
            Ok(length) => humantime_duration(text@) == Ok::<(u64, u32), Seq<char>>(length),
            Err(message) => humantime_duration(text@) == Err::<(u64, u32), Seq<char>>(message@),
        },
        duration matches Ok(length) ==> length.1 < 1_000_000_000,
{
    match humantime::parse_duration(text) {
        Ok(length) => Ok((length.as_secs(), length.subsec_nanos())),
        Err(error) => Err(error.to_string()),
    }
}

/// The start offset for a duration that was read: the duration itself,
/// unless it has more seconds than `i64` holds.
pub open spec fn offset_of(length: Result<(u64, u32), Seq<char>>) -> Result<Offset, StartFailure> {
    match length {
        Err(message) => Err(StartFailure::Unreadable(message)),
        Ok((seconds, nanoseconds)) => if seconds > i64::MAX {
            Err(StartFailure::TooLong)
        } else {
            Ok(Offset { seconds, nanoseconds })
        },
    }
}

/// The start offset that an argument stands for: none for no argument.
/// Words with more than [`MAX_START_DIGITS`] digits are an error without
/// being read.
pub open spec fn start_of(arg: Option<String>) -> Result<Option<Offset>, StartFailure> {
    match arg {
        None => Ok(None),
        Some(text) => if digit_count(text@) > MAX_START_DIGITS {
            Err(StartFailure::TooManyDigits)
        } else {
            match offset_of(humantime_duration(text@)) {
                Ok(offset) => Ok(Some(offset)),
                Err(failure) => Err(failure),
            }
        },
    }
}

/// The model of a start offset that may be missing, or of the error in its
/// place.
pub open spec fn start_result(result: Result<Option<Offset>, StartError>) -> Result<
    Option<Offset>,
    StartFailure,
> {
    match result {
        Ok(start) => Ok(start),
        Err(error) => Err(error@),
    }
}

/// The model of a duration that was read, or of the error in its place.
pub open spec fn length_read(length: Result<(u64, u32), String>) -> Result<(u64, u32), Seq<char>> {
    match length {
        Ok(read) => Ok(read),
        Err(message) => Err(message@),
    }
}

/// The model of a start offset, or of the error in its place.
pub open spec fn offset_result(offset: Result<Offset, StartError>) -> Result<Offset, StartFailure> {
    match offset {
        Ok(span) => Ok(span),
        Err(error) => Err(error@),
    }
}

/// The start offset for a duration that was read.
pub fn offset_from(length: Result<(u64, u32), String>) -> (offset: Result<Offset, StartError>)
    ensures
        offset_result(offset) == offset_of(length_read(length)),
{
    match length {
        Err(message) => Err(StartError::Unreadable(message)),
        Ok((seconds, nanoseconds)) => {
            if seconds > i64::MAX as u64 {
                Err(StartError::TooLong)
            } else {
                Ok(Offset { seconds, nanoseconds })
            }
        },
    }
}

/// Reads the start offset of a call, if one was given.
pub fn start_to_duration(arg: Option<String>) -> (start: Result<Option<Offset>, StartError>)
    ensures
        start_result(start) == start_of(arg),
        start matches Ok(Some(offset)) ==> offset.seconds <= i64::MAX && offset.nanoseconds
            < 1_000_000_000,
{
    match arg {
        None => Ok(None),
        Some(text) => {
            if !has_at_most_digits(text.as_str(), MAX_START_DIGITS) {
                return Err(StartError::TooManyDigits);
            }
            match offset_from(parse_duration(text.as_str())) {
                Ok(offset) => Ok(Some(offset)),
                Err(error) => Err(error),
            }
        },
    }
}

/// Whether `command` is what `cli_args` ask for. A scrobble with an album
/// is an album command, whether or not a track is named too; a scrobble
/// with a track alone is a track command; a scrobble with neither is an
/// error, and its start offset is not read. Every other start offset is
/// read, and one that cannot be used is an error.
pub open spec fn asked_for(cli_args: CliArgs, command: Result<Command, CliError>) -> bool {
    match cli_args {
        CliArgs::Auth { api_key, secret_key } => command matches Ok(
            Command::Authenticate { api_key: key, secret_key: secret },
        ) && key == api_key && secret == secret_key,
        CliArgs::Scrobble { artist, album: Some(album), track, dryrun, start } => match start_of(
            start,
        ) {
            Ok(offset) => command matches Ok(
                Command::ScrobbleAlbum { artist: a, album: b, dryrun: d, start: s },
            ) && a == artist && b == album && d == dryrun && s == offset,
            Err(failure) => command matches Err(CliError::Start(error)) && error@ == failure,
        },
        CliArgs::Scrobble { artist, album: None, track: Some(track), dryrun, start } => match
            start_of(start) {
            Ok(offset) => command matches Ok(
                Command::ScrobbleTrack { artist: a, track: t, dryrun: d, start: s },
            ) && a == artist && t == track && d == dryrun && s == offset,
            Err(failure) => command matches Err(CliError::Start(error)) && error@ == failure,
        },
        CliArgs::Scrobble { artist, album: None, track: None, dryrun, start } => {
            command matches Err(CliError::WrongArguments)
        },
        CliArgs::ScrobbleUrl { url, dryrun, start } => match start_of(start) {
            Ok(offset) => command matches Ok(Command::ScrobbleUrl { url: u, dryrun: d, start: s })
                && u == url && d == dryrun && s == offset,
            Err(failure) => command matches Err(CliError::Start(error)) && error@ == failure,
        },
    }
}

/// Decides what the arguments of a call ask for.
pub fn run(cli_args: CliArgs) -> (command: Result<Command, CliError>)
    ensures
        asked_for(cli_args, command),
{
    match cli_args {
        CliArgs::Auth { api_key, secret_key } => Ok(Command::Authenticate { api_key, secret_key }),
        CliArgs::Scrobble { artist, album: Some(album), track: _, dryrun, start } => {
            match start_to_duration(start) {
                Ok(start) => Ok(Command::ScrobbleAlbum { artist, album, dryrun, start }),
                Err(error) => Err(CliError::Start(error)),
            }
        },
        CliArgs::Scrobble { artist, album: None, track: Some(track), dryrun, start } => {
            match start_to_duration(start) {
                Ok(start) => Ok(Command::ScrobbleTrack { artist, track, dryrun, start }),
                Err(error) => Err(CliError::Start(error)),
            }
        },
        CliArgs::Scrobble { artist: _, album: None, track: None, dryrun: _, start: _ } => Err(
            CliError::WrongArguments,
        ),
        CliArgs::ScrobbleUrl { url, dryrun, start } => match start_to_duration(start) {
            Ok(start) => Ok(Command::ScrobbleUrl { url, dryrun, start }),
            Err(error) => Err(CliError::Start(error)),
        },
    }
}

} // verus!
