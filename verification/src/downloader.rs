//! The downloader of a live stream: what it remembers of the segments it has seen, and what it
//! does in one round over the playlist.
use crate::links::{is_absolute_address, join_url, parse_url, resolve_segment};
#[allow(unused_imports)]
use crate::links::{is_absolute, joined_url, parsed_url, segment_address, text_result};
use crate::playlist::{
    find_init_uri, parse_playlist, process_playlist, target_duration, Playlist,
};
#[allow(unused_imports)]
use crate::playlist::{
    is_processed, optional_text, parsed_playlist, playlist_init_uri, playlist_result, playlist_target_duration,
    PlaylistView, DEFAULT_TARGET_DURATION,
};
use crate::segment::is_forbidden_message;
#[allow(unused_imports)]
use crate::segment::says_forbidden;
#[allow(unused_imports)]
use crate::text::decimal;
use vstd::hash_map::StringHashMap;
use vstd::hash_set::StringHashSet;
use vstd::prelude::*;

verus! {

/// After how many written segments the output is flushed.
pub const FLUSH_INTERVAL: usize = 10;

/// In how many rounds a segment may fail before it is given up.
pub const MAX_SEGMENT_FAILURES: u32 = 5;

/// How many segments in a row may fail in a round before the connection counts as broken.
pub const MAX_CONSECUTIVE_FAILED_SEGMENTS: u32 = 3;

/// How a round over the playlist ended.
#[derive(Debug, Clone, Copy, PartialEq, Eq, Structural)]
pub enum RoundOutcome {
    DownloadedContent,
    NoNewSegments,
    PendingRetry,
    FatalSegmentError,
    TicketedRoom,
}

/// Why a round over the playlist failed.
#[derive(Debug, PartialEq)]
pub enum RoundError {
    /// The server answered the request for the playlist with this status code.
    Status(u16),
    /// An address does not parse; the text is the parser's message.
    Url(String),
    /// The playlist does not parse; the text is the parser's message.
    Playlist(String),
    /// The playlist is a master playlist.
    MasterPlaylist,
}

pub enum RoundErrorView {
    Status(u16),
    Url(Seq<char>),
    Playlist(Seq<char>),
    MasterPlaylist,
}

impl View for RoundError {
    type V = RoundErrorView;

    open spec fn view(&self) -> RoundErrorView {
        match self {
            RoundError::Status(code) => RoundErrorView::Status(*code),
            RoundError::Url(message) => RoundErrorView::Url(message@),
            RoundError::Playlist(message) => RoundErrorView::Playlist(message@),
            RoundError::MasterPlaylist => RoundErrorView::MasterPlaylist,
        }
    }
}

/// A segment that was not seen before: its address and its URI in the playlist.
#[derive(Debug)]
pub struct NewSegment {
    pub address: String,
    pub uri: String,
}

pub struct SegmentView {
    pub address: Seq<char>,
    pub uri: Seq<char>,
}

impl View for NewSegment {
    type V = SegmentView;

    open spec fn view(&self) -> SegmentView {
        SegmentView { address: self.address@, uri: self.uri@ }
    }
}

pub open spec fn segment_views(segments: Seq<NewSegment>) -> Seq<SegmentView> {
    segments.map_values(|segment: NewSegment| segment@)
}

pub open spec fn text_views(texts: Seq<String>) -> Seq<Seq<char>> {
    texts.map_values(|text: String| text@)
}

/// What a look at the shutdown channel found.
#[derive(Debug, Clone, Copy, PartialEq, Eq, Structural)]
pub enum ShutdownPoll {
    Received,
    Empty,
    Closed,
    Lagged,
}

/// How a wait that the shutdown channel can cut short ended.
#[derive(Debug, Clone, Copy, PartialEq, Eq, Structural)]
pub enum WaitEnd {
    /// The time is over; the channel was looked at afterwards.
    Elapsed(ShutdownPoll),
    /// The channel cut the wait short.
    Signalled,
}

/// The downloader of one user's stream.
pub struct HlsDownloader {
    downloaded_segments: StringHashSet,
    failed_segment_attempts: StringHashMap<u32>,
    init_segment_downloaded: bool,
    listens_for_shutdown: bool,
    username: String,
    total_processed_segments: usize,
    segments_since_flush: usize,
}

/// A downloader's memory: the URIs that it will not fetch again, in how many rounds each of the
/// other URIs has failed, whether the initialization segment of the current part is there, and
/// how many segments were written, in all and since the last flush.
#[verifier::ext_equal]
pub struct DownloaderView {
    pub downloaded: Set<Seq<char>>,
    pub failed: Map<Seq<char>, u32>,
    pub init_segment_downloaded: bool,
    pub listens_for_shutdown: bool,
    pub username: Seq<char>,
    pub total_processed: nat,
    pub since_flush: nat,
}

impl DownloaderView {
    /// The memory of a downloader that has seen nothing yet.
    pub open spec fn fresh(username: Seq<char>, listens_for_shutdown: bool) -> DownloaderView {
        DownloaderView {
            downloaded: Set::empty(),
            failed: Map::empty(),
            init_segment_downloaded: false,
            listens_for_shutdown,
            username,
            total_processed: 0,
            since_flush: 0,
        }
    }

    /// No URI has failed in so many rounds that it should have been given up, and the segments
    /// since the last flush are among all that were written.
    pub open spec fn wf(self) -> bool {
        &&& forall|uri: Seq<char>| #[trigger]
            self.failed.contains_key(uri) ==> 0 < self.failed[uri] < MAX_SEGMENT_FAILURES
        &&& self.since_flush <= self.total_processed <= usize::MAX
    }

    /// The URI is not fetched again.
    pub open spec fn settled(self, uri: Seq<char>) -> DownloaderView {
        DownloaderView {
            downloaded: self.downloaded.insert(uri),
            failed: self.failed.remove(uri),
            ..self
        }
    }

    /// In how many rounds the URI has failed so far.
    pub open spec fn failures(self, uri: Seq<char>) -> nat {
        if self.failed.contains_key(uri) {
            self.failed[uri] as nat
        } else {
            0
        }
    }
}

impl View for HlsDownloader {
    type V = DownloaderView;

    closed spec fn view(&self) -> DownloaderView {
        DownloaderView {
            downloaded: self.downloaded_segments@,
            failed: self.failed_segment_attempts@,
            init_segment_downloaded: self.init_segment_downloaded,
            listens_for_shutdown: self.listens_for_shutdown,
            username: self.username@,
            total_processed: self.total_processed_segments as nat,
            since_flush: self.segments_since_flush as nat,
        }
    }
}

/// What a round waits for.
#[derive(Debug, Clone, Copy, PartialEq, Eq, Structural)]
pub enum RoundPhase {
    Response,
    Content,
    Init,
    InitWrite,
    Segment,
    SegmentWrite,
    Flush,
    Over,
}

/// One round over the playlist.
pub struct PlaylistRound {
    playlist_url: String,
    content: String,
    phase: RoundPhase,
    target_duration: u64,
    init_failed: bool,
    init_just_downloaded: bool,
    segments: Vec<NewSegment>,
    next: usize,
    any_succeeded: bool,
    consecutive_failed_segments: u32,
}

/// A round: the playlist's address and text, what the round waits for, what became of the
/// initialization segment, the new segments with the position of the current one, whether any
/// was written, and how many failed since the last that was fetched.
#[verifier::ext_equal]
pub struct RoundView {
    pub playlist_url: Seq<char>,
    pub content: Seq<char>,
    pub phase: RoundPhase,
    pub target_duration: u64,
    pub init_failed: bool,
    pub init_just_downloaded: bool,
    pub segments: Seq<SegmentView>,
    pub next: int,
    pub any_succeeded: bool,
    pub consecutive_failed: nat,
}

impl View for PlaylistRound {
    type V = RoundView;

    closed spec fn view(&self) -> RoundView {
        RoundView {
            playlist_url: self.playlist_url@,
            content: self.content@,
            phase: self.phase,
            target_duration: self.target_duration,
            init_failed: self.init_failed,
            init_just_downloaded: self.init_just_downloaded,
            segments: segment_views(self.segments@),
            next: self.next as int,
            any_succeeded: self.any_succeeded,
            consecutive_failed: self.consecutive_failed_segments as nat,
        }
    }
}

/// What happened to a round.
#[derive(Debug)]
pub enum RoundEvent {
    /// The server answered the request for the playlist with this status code.
    Response(u16),
    /// The text of the playlist is here.
    Content(String),
    /// The initialization segment is here.
    InitFetched(Vec<u8>),
    /// The initialization segment could not be fetched.
    InitFailed,
    /// The initialization segment is written.
    InitWritten,
    /// The current segment is here.
    SegmentFetched(Vec<u8>),
    /// The current segment could not be fetched, with this error message.
    SegmentFailed(String),
    /// The current segment is written.
    SegmentWritten,
    /// The output is flushed.
    Flushed,
}

pub enum RoundEventView {
    Response(u16),
    Content(Seq<char>),
    InitFetched(Seq<u8>),
    InitFailed,
    InitWritten,
    SegmentFetched(Seq<u8>),
    SegmentFailed(Seq<char>),
    SegmentWritten,
    Flushed,
}

impl View for RoundEvent {
    type V = RoundEventView;

    open spec fn view(&self) -> RoundEventView {
        match self {
            RoundEvent::Response(status) => RoundEventView::Response(*status),
            RoundEvent::Content(text) => RoundEventView::Content(text@),
            RoundEvent::InitFetched(data) => RoundEventView::InitFetched(data@),
            RoundEvent::InitFailed => RoundEventView::InitFailed,
            RoundEvent::InitWritten => RoundEventView::InitWritten,
            RoundEvent::SegmentFetched(data) => RoundEventView::SegmentFetched(data@),
            RoundEvent::SegmentFailed(message) => RoundEventView::SegmentFailed(message@),
            RoundEvent::SegmentWritten => RoundEventView::SegmentWritten,
            RoundEvent::Flushed => RoundEventView::Flushed,
        }
    }
}

/// What a round asks for.
#[derive(Debug, PartialEq)]
pub enum RoundAction {
    /// Read the text of the playlist.
    ReadContent,
    /// Fetch the initialization segment from this address.
    FetchInit(String),
    /// Write the initialization segment to the output.
    WriteInit(Vec<u8>),
    /// Fetch the segment from this address.
    FetchSegment(String),
    /// Write the segment to the output.
    WriteSegment(Vec<u8>),
    /// Flush the output.
    Flush,
    /// The round is over, with its outcome and the playlist's target duration in seconds.
    Finish(RoundOutcome, u64),
    /// The round failed.
    Fail(RoundError),
}

pub enum RoundActionView {
    ReadContent,
    FetchInit(Seq<char>),
    WriteInit(Seq<u8>),
    FetchSegment(Seq<char>),
    WriteSegment(Seq<u8>),
    Flush,
    Finish(RoundOutcome, u64),
    Fail(RoundErrorView),
}

impl View for RoundAction {
    type V = RoundActionView;

    open spec fn view(&self) -> RoundActionView {
        match self {
            RoundAction::ReadContent => RoundActionView::ReadContent,
            RoundAction::FetchInit(address) => RoundActionView::FetchInit(address@),
            RoundAction::WriteInit(data) => RoundActionView::WriteInit(data@),
            RoundAction::FetchSegment(address) => RoundActionView::FetchSegment(address@),
            RoundAction::WriteSegment(data) => RoundActionView::WriteSegment(data@),
            RoundAction::Flush => RoundActionView::Flush,
            RoundAction::Finish(outcome, seconds) => RoundActionView::Finish(*outcome, *seconds),
            RoundAction::Fail(error) => RoundActionView::Fail(error@),
        }
    }
}

/// The event is one that a round in this phase waits for.
pub open spec fn awaits(phase: RoundPhase, event: RoundEventView) -> bool {
    match event {
        RoundEventView::Response(_) => phase == RoundPhase::Response,
        RoundEventView::Content(_) => phase == RoundPhase::Content,
        RoundEventView::InitFetched(_) => phase == RoundPhase::Init,
        RoundEventView::InitFailed => phase == RoundPhase::Init,
        RoundEventView::InitWritten => phase == RoundPhase::InitWrite,
        RoundEventView::SegmentFetched(_) => phase == RoundPhase::Segment,
        RoundEventView::SegmentFailed(_) => phase == RoundPhase::Segment,
        RoundEventView::SegmentWritten => phase == RoundPhase::SegmentWrite,
        RoundEventView::Flushed => phase == RoundPhase::Flush,
    }
}

impl RoundView {
    /// While the round works on segments there is a current one, and fewer have failed in a row
    /// than end the round.
    pub open spec fn wf(self) -> bool {
        self.phase == RoundPhase::Segment || self.phase == RoundPhase::SegmentWrite || self.phase
            == RoundPhase::Flush ==> {
            &&& 0 <= self.next < self.segments.len()
            &&& self.consecutive_failed < MAX_CONSECUTIVE_FAILED_SEGMENTS
        }
    }

    /// The round before anything has happened.
    pub open spec fn start(playlist_url: Seq<char>) -> RoundView {
        RoundView {
            playlist_url,
            content: seq![],
            phase: RoundPhase::Response,
            target_duration: DEFAULT_TARGET_DURATION,
            init_failed: false,
            init_just_downloaded: false,
            segments: seq![],
            next: 0,
            any_succeeded: false,
            consecutive_failed: 0,
        }
    }

    pub open spec fn in_phase(self, phase: RoundPhase) -> RoundView {
        RoundView { phase, ..self }
    }

    /// The segment that the round works on.
    pub open spec fn current(self) -> SegmentView {
        self.segments[self.next]
    }
}

/// A downloader, a round and what the round asks for.
pub struct RoundState {
    pub downloader: DownloaderView,
    pub round: RoundView,
    pub action: RoundActionView,
}

/// The round ends with an outcome.
pub open spec fn finished(dl: DownloaderView, round: RoundView, outcome: RoundOutcome) -> RoundState {
    RoundState {
        downloader: dl,
        round: round.in_phase(RoundPhase::Over),
        action: RoundActionView::Finish(outcome, round.target_duration),
    }
}

/// The round ends with an error.
pub open spec fn failed(dl: DownloaderView, round: RoundView, error: RoundErrorView) -> RoundState {
    RoundState {
        downloader: dl,
        round: round.in_phase(RoundPhase::Over),
        action: RoundActionView::Fail(error),
    }
}

pub open spec fn is_success(status: u16) -> bool {
    200 <= status < 300
}

/// The server's answer to the request for the playlist. A refusal means that the room asks for a
/// ticket.
pub open spec fn after_response(dl: DownloaderView, round: RoundView, status: u16) -> RoundState {
    if is_success(status) {
        RoundState {
            downloader: dl,
            round: round.in_phase(RoundPhase::Content),
            action: RoundActionView::ReadContent,
        }
    } else if status == 403 {
        finished(dl, round, RoundOutcome::TicketedRoom)
    } else {
        failed(dl, round, RoundErrorView::Status(status))
    }
}

/// The address of the initialization segment, from its URI and what joining the URI to the
/// playlist's address gave.
pub open spec fn init_address(
    uri: Option<Seq<char>>,
    joined: Result<Seq<char>, Seq<char>>,
) -> Result<Option<Seq<char>>, Seq<char>> {
    match uri {
        None => Ok(None),
        Some(text) => if is_absolute(text) {
            Ok(Some(text))
        } else {
            match joined {
                Ok(address) => Ok(Some(address)),
                Err(message) => Err(message),
            }
        },
    }
}

/// The address of the initialization segment that a playlist names.
pub open spec fn playlist_init_address(
    content: Seq<char>,
    playlist_url: Seq<char>,
) -> Result<Option<Seq<char>>, Seq<char>> {
    let uri = playlist_init_uri(content);
    init_address(uri, joined_url(playlist_url, uri.unwrap_or(seq![])))
}

/// The URIs of a playlist, from what the two parsers gave.
pub open spec fn listed_uris(
    parsed: Result<PlaylistView, Seq<char>>,
    base: Result<Seq<char>, Seq<char>>,
) -> Result<Seq<Seq<char>>, RoundErrorView> {
    match parsed {
        Err(message) => Err(RoundErrorView::Playlist(message)),
        Ok(PlaylistView::Master) => Err(RoundErrorView::MasterPlaylist),
        Ok(PlaylistView::Media(uris)) => match base {
            Err(message) => Err(RoundErrorView::Url(message)),
            Ok(_) => Ok(uris),
        },
    }
}

/// The URIs that are still to be fetched, in their order.
pub open spec fn unseen(uris: Seq<Seq<char>>, downloaded: Set<Seq<char>>) -> Seq<Seq<char>> {
    uris.filter(|uri: Seq<char>| !downloaded.contains(uri))
}

/// Each URI with its address.
pub open spec fn addressed(uris: Seq<Seq<char>>, playlist_url: Seq<char>) -> Seq<SegmentView> {
    uris.map_values(
        |uri: Seq<char>|
            SegmentView { address: segment_address(uri, joined_url(playlist_url, uri)), uri },
    )
}

/// The round turns to its segments, once they are known.
pub open spec fn with_segments(
    dl: DownloaderView,
    round: RoundView,
    segments: Seq<SegmentView>,
) -> RoundState {
    if round.init_failed {
        finished(dl, round, RoundOutcome::PendingRetry)
    } else if segments.len() == 0 {
        finished(
            dl,
            round,
            if round.init_just_downloaded {
                RoundOutcome::DownloadedContent
            } else {
                RoundOutcome::NoNewSegments
            },
        )
    } else {
        RoundState {
            downloader: dl,
            round: RoundView {
                phase: RoundPhase::Segment,
                segments,
                next: 0,
                any_succeeded: false,
                consecutive_failed: 0,
                ..round
            },
            action: RoundActionView::FetchSegment(segments[0].address),
        }
    }
}

/// The round turns to its segments.
pub open spec fn plan(dl: DownloaderView, round: RoundView) -> RoundState {
    let parsed = parsed_playlist(vstd::utf8::encode_utf8(round.content));
    match listed_uris(parsed, parsed_url(round.playlist_url)) {
        Err(error) => failed(dl, round, error),
        Ok(uris) => with_segments(
            dl,
            round,
            addressed(unseen(uris, dl.downloaded), round.playlist_url),
        ),
    }
}

/// The text of the playlist is here.
pub open spec fn after_content(dl: DownloaderView, round: RoundView, content: Seq<char>) -> RoundState {
    let read = RoundView {
        content,
        target_duration: playlist_target_duration(content) as u64,
        ..round
    };
    if dl.init_segment_downloaded {
        plan(dl, read)
    } else {
        match playlist_init_address(content, round.playlist_url) {
            Err(message) => failed(dl, read, RoundErrorView::Url(message)),
            Ok(None) => plan(dl, read),
            Ok(Some(address)) => RoundState {
                downloader: dl,
                round: read.in_phase(RoundPhase::Init),
                action: RoundActionView::FetchInit(address),
            },
        }
    }
}

/// The round turns to the next segment, or ends behind the last one.
pub open spec fn advance(dl: DownloaderView, round: RoundView) -> RoundState {
    if round.next + 1 < round.segments.len() {
        RoundState {
            downloader: dl,
            round: RoundView { phase: RoundPhase::Segment, next: round.next + 1, ..round },
            action: RoundActionView::FetchSegment(round.segments[round.next + 1].address),
        }
    } else {
        finished(
            dl,
            RoundView { next: round.next + 1, ..round },
            if round.any_succeeded {
                RoundOutcome::DownloadedContent
            } else {
                RoundOutcome::NoNewSegments
            },
        )
    }
}

/// The current segment is here. An empty one is settled without being written.
pub open spec fn after_segment(dl: DownloaderView, round: RoundView, data: Seq<u8>) -> RoundState {
    if data.len() == 0 {
        advance(dl.settled(round.current().uri), round)
    } else {
        RoundState {
            downloader: dl,
            round: RoundView { phase: RoundPhase::SegmentWrite, consecutive_failed: 0, ..round },
            action: RoundActionView::WriteSegment(data),
        }
    }
}

/// The current segment is in the output for good.
pub open spec fn stored(dl: DownloaderView, round: RoundView) -> RoundState {
    advance(dl.settled(round.current().uri), RoundView { any_succeeded: true, ..round })
}

/// The current segment is written.
pub open spec fn after_write(dl: DownloaderView, round: RoundView) -> RoundState {
    let counted = DownloaderView {
        total_processed: dl.total_processed + 1,
        since_flush: dl.since_flush + 1,
        ..dl
    };
    if counted.since_flush >= FLUSH_INTERVAL {
        RoundState {
            downloader: counted,
            round: round.in_phase(RoundPhase::Flush),
            action: RoundActionView::Flush,
        }
    } else {
        stored(counted, round)
    }
}

/// The current segment could not be fetched. A refusal and too many failures in a row end the
/// round and leave the memory as it is. Else the failure is counted: with the last one that is
/// allowed the segment is given up and the round goes on; with an earlier one the round ends, and
/// a later round tries the segment again.
pub open spec fn after_failure(dl: DownloaderView, round: RoundView, message: Seq<char>) -> RoundState {
    let uri = round.current().uri;
    let counted = RoundView { consecutive_failed: round.consecutive_failed + 1, ..round };
    let failures = dl.failures(uri) + 1;
    if says_forbidden(message) {
        finished(dl, counted, RoundOutcome::TicketedRoom)
    } else if counted.consecutive_failed >= MAX_CONSECUTIVE_FAILED_SEGMENTS {
        finished(dl, counted, RoundOutcome::FatalSegmentError)
    } else if failures >= MAX_SEGMENT_FAILURES {
        advance(dl.settled(uri), counted)
    } else {
        finished(
            DownloaderView { failed: dl.failed.insert(uri, failures as u32), ..dl },
            counted,
            if round.any_succeeded {
                RoundOutcome::DownloadedContent
            } else {
                RoundOutcome::PendingRetry
            },
        )
    }
}

/// What follows an event.
pub open spec fn round_step(dl: DownloaderView, round: RoundView, event: RoundEventView) -> RoundState {
    match event {
        RoundEventView::Response(status) => after_response(dl, round, status),
        RoundEventView::Content(content) => after_content(dl, round, content),
        RoundEventView::InitFetched(data) => RoundState {
            downloader: dl,
            round: round.in_phase(RoundPhase::InitWrite),
            action: RoundActionView::WriteInit(data),
        },
        RoundEventView::InitFailed => plan(dl, RoundView { init_failed: true, ..round }),
        RoundEventView::InitWritten => plan(
            DownloaderView { init_segment_downloaded: true, ..dl },
            RoundView { init_just_downloaded: true, ..round },
        ),
        RoundEventView::SegmentFetched(data) => after_segment(dl, round, data),
        RoundEventView::SegmentFailed(message) => after_failure(dl, round, message),
        RoundEventView::SegmentWritten => after_write(dl, round),
        RoundEventView::Flushed => stored(DownloaderView { since_flush: 0, ..dl }, round),
    }
}

/// The status code with its standard reason, as the `http` crate writes it.
pub uninterp spec fn status_text(code: u16) -> Seq<char>;

/// Writes a status code through `reqwest::StatusCode`. Believed of it: the text depends on the
/// code alone, and that of a code with three digits begins with them and a space. Which reason
/// belongs to which code is left to the `http` crate.
#[verifier::external_body]
fn describe_status(code: u16) -> (text: String)
    ensures
        text@ == status_text(code),
        100 <= code < 1000 ==> (decimal(code as nat) + " "@).is_prefix_of(text@),
{
    match reqwest::StatusCode::from_u16(code) {
        Ok(status) => status.to_string(),
        Err(error) => error.to_string(),
    }
}

impl RoundErrorView {
    /// The error's text, where `status` is the text of the status code that the error holds.
    pub open spec fn text(self, status: Seq<char>) -> Seq<char> {
        match self {
            RoundErrorView::Status(_) => "获取播放列表失败 ("@ + status + "): 该地址可能已失效"@,
            RoundErrorView::Url(message) => message,
            RoundErrorView::Playlist(message) => "解析 M3U8 失败: "@ + message,
            RoundErrorView::MasterPlaylist => "此上下文不支持主播放列表"@,
        }
    }

    /// The text of the status code that the error holds; nothing where it holds none.
    pub open spec fn status(self) -> Seq<char> {
        match self {
            RoundErrorView::Status(code) => status_text(code),
            _ => seq![],
        }
    }
}

impl RoundError {
    /// The error's text, from the text of the status code that it holds.
    pub fn message_with(&self, status: &str) -> (message: String)
        ensures
            message@ == self@.text(status@),
    {
        match self {
            RoundError::Status(_) => {
                let mut message: String = "获取播放列表失败 (".to_string();
                message.append(status);
                message.append("): 该地址可能已失效");
                message
            },
            RoundError::Url(message) => message.clone(),
            RoundError::Playlist(text) => {
                let mut message: String = "解析 M3U8 失败: ".to_string();
                message.append(text.as_str());
                message
            },
            RoundError::MasterPlaylist => "此上下文不支持主播放列表".to_string(),
        }
    }

    /// The error's text.
    pub fn message(&self) -> (message: String)
        ensures
            message@ == self@.text(self@.status()),
    {
        let status: String = match self {
            RoundError::Status(code) => describe_status(*code),
            _ => String::new(),
        };
        self.message_with(status.as_str())
    }
}

/// The URIs of a playlist, from what the two parsers gave: the playlist's own parser, and the
/// address parser on the playlist's address.
pub fn playlist_uris(
    parsed: Result<Playlist, String>,
    base: Result<String, String>,
) -> (uris: Result<Vec<String>, RoundError>)
    ensures
        match uris {
            Ok(list) => listed_uris(playlist_result(parsed), text_result(base)) == Ok::<
                Seq<Seq<char>>,
                RoundErrorView,
            >(text_views(list@)),
            Err(error) => listed_uris(playlist_result(parsed), text_result(base)) == Err::<
                Seq<Seq<char>>,
                RoundErrorView,
            >(error@),
        },
{
    match parsed {
        Err(message) => Err(RoundError::Playlist(message)),
        Ok(Playlist::Master) => Err(RoundError::MasterPlaylist),
        Ok(Playlist::Media(uris)) => match base {
            Err(message) => Err(RoundError::Url(message)),
            Ok(_) => Ok(uris),
        },
    }
}

/// The address of the initialization segment, from its URI and what joining the URI to the
/// playlist's address gave.
pub fn choose_init_address(
    uri: Option<String>,
    joined: Result<String, String>,
) -> (address: Result<Option<String>, String>)
    ensures
        match address {
            Ok(found) => init_address(optional_text(uri), text_result(joined)) == Ok::<
                Option<Seq<char>>,
                Seq<char>,
            >(optional_text(found)),
            Err(message) => init_address(optional_text(uri), text_result(joined)) == Err::<
                Option<Seq<char>>,
                Seq<char>,
            >(message@),
        },
{
    match uri {
        None => Ok(None),
        Some(text) => if is_absolute_address(text.as_str()) {
            Ok(Some(text))
        } else {
            match joined {
                Ok(address) => Ok(Some(address)),
                Err(message) => Err(message),
            }
        },
    }
}

/// Each URI with its address.
fn address_segments(uris: Vec<String>, playlist_url: &str) -> (segments: Vec<NewSegment>)
    ensures
        segment_views(segments@) == addressed(text_views(uris@), playlist_url@),
{
    let mut segments: Vec<NewSegment> = Vec::new();
    let mut i: usize = 0;
    while i < uris.len()
        invariant
            i <= uris@.len(),
            segments@.len() == i,
            forall|j: int|
                0 <= j < i ==> (#[trigger] segments@[j])@ == addressed(text_views(uris@), playlist_url@)[j],
        decreases uris@.len() - i,
    {
        let address: String = resolve_segment(playlist_url, uris[i].as_str());
        segments.push(NewSegment { address, uri: uris[i].clone() });
        i = i + 1;
    }
    assert(segment_views(segments@) =~= addressed(text_views(uris@), playlist_url@));
    segments
}

impl PlaylistRound {
    /// A round over the playlist at the given address. The first thing to do is to request the
    /// playlist.
    pub fn new(playlist_url: &str) -> (round: PlaylistRound)
        ensures
            round@ == RoundView::start(playlist_url@),
            round@.wf(),
    {
        let segments: Vec<NewSegment> = Vec::new();
        assert(segment_views(segments@) =~= seq![]);
        PlaylistRound {
            playlist_url: playlist_url.to_string(),
            content: String::new(),
            phase: RoundPhase::Response,
            target_duration: DEFAULT_TARGET_DURATION,
            init_failed: false,
            init_just_downloaded: false,
            segments,
            next: 0,
            any_succeeded: false,
            consecutive_failed_segments: 0,
        }
    }

    /// Whether the round waits for this event.
    pub fn awaits(&self, event: &RoundEvent) -> (awaited: bool)
        ensures
            awaited == awaits(self@.phase, event@),
    {
        match event {
            RoundEvent::Response(_) => self.phase == RoundPhase::Response,
            RoundEvent::Content(_) => self.phase == RoundPhase::Content,
            RoundEvent::InitFetched(_) => self.phase == RoundPhase::Init,
            RoundEvent::InitFailed => self.phase == RoundPhase::Init,
            RoundEvent::InitWritten => self.phase == RoundPhase::InitWrite,
            RoundEvent::SegmentFetched(_) => self.phase == RoundPhase::Segment,
            RoundEvent::SegmentFailed(_) => self.phase == RoundPhase::Segment,
            RoundEvent::SegmentWritten => self.phase == RoundPhase::SegmentWrite,
            RoundEvent::Flushed => self.phase == RoundPhase::Flush,
        }
    }

    /// How many new segments the round has.
    pub fn new_segment_count(&self) -> (count: usize)
        ensures
            count == self@.segments.len(),
    {
        self.segments.len()
    }

    /// The URI of the segment that the round works on. None behind the last one.
    pub fn current_uri(&self) -> (uri: Option<&str>)
        ensures
            match uri {
                Some(text) => 0 <= self@.next < self@.segments.len() && text@ == self@.current().uri,
                None => self@.next >= self@.segments.len(),
            },
    {
        if self.next < self.segments.len() {
            assert(self@.current() == self.segments@[self.next as int]@);
            Some(self.segments[self.next].uri.as_str())
        } else {
            None
        }
    }

    /// Ends the round with an outcome.
    fn finish(&mut self, outcome: RoundOutcome) -> (action: RoundAction)
        ensures
            final(self)@ == old(self)@.in_phase(RoundPhase::Over),
            action@ == RoundActionView::Finish(outcome, old(self)@.target_duration),
    {
        self.phase = RoundPhase::Over;
        RoundAction::Finish(outcome, self.target_duration)
    }

    /// Ends the round with an error.
    fn fail(&mut self, error: RoundError) -> (action: RoundAction)
        ensures
            final(self)@ == old(self)@.in_phase(RoundPhase::Over),
            action@ == RoundActionView::Fail(error@),
    {
        self.phase = RoundPhase::Over;
        RoundAction::Fail(error)
    }

    /// Turns to the next segment, or ends behind the last one.
    fn advance(&mut self, Ghost(dl): Ghost<DownloaderView>) -> (action: RoundAction)
        requires
            old(self)@.wf(),
            0 <= old(self)@.next < old(self)@.segments.len(),
            old(self)@.consecutive_failed < MAX_CONSECUTIVE_FAILED_SEGMENTS,
        ensures
            final(self)@ == advance(dl, old(self)@).round,
            action@ == advance(dl, old(self)@).action,
            final(self)@.wf(),
    {
        let count: usize = self.segments.len();
        assert(count == self@.segments.len());
        self.next = self.next + 1;
        if self.next < count {
            self.phase = RoundPhase::Segment;
            assert(self@.segments[self@.next] == self.segments@[self.next as int]@);
            RoundAction::FetchSegment(self.segments[self.next].address.clone())
        } else if self.any_succeeded {
            self.finish(RoundOutcome::DownloadedContent)
        } else {
            self.finish(RoundOutcome::NoNewSegments)
        }
    }

    /// Turns to the new segments, once they are known.
    pub fn begin_segments(&mut self, segments: Vec<NewSegment>) -> (action: RoundAction)
        ensures
            forall|dl: DownloaderView| #[trigger]
                with_segments(dl, old(self)@, segment_views(segments@)) == (RoundState {
                    downloader: dl,
                    round: final(self)@,
                    action: action@,
                }),
            old(self)@.phase != RoundPhase::Segment && old(self)@.phase != RoundPhase::SegmentWrite
                && old(self)@.phase != RoundPhase::Flush ==> final(self)@.wf(),
    {
        if self.init_failed {
            return self.finish(RoundOutcome::PendingRetry);
        }
        if segments.len() == 0 {
            return if self.init_just_downloaded {
                self.finish(RoundOutcome::DownloadedContent)
            } else {
                self.finish(RoundOutcome::NoNewSegments)
            };
        }
        let address: String = segments[0].address.clone();
        assert(segment_views(segments@)[0] == segments@[0]@);
        self.segments = segments;
        self.next = 0;
        self.any_succeeded = false;
        self.consecutive_failed_segments = 0;
        self.phase = RoundPhase::Segment;
        RoundAction::FetchSegment(address)
    }
}

impl HlsDownloader {
    /// A downloader that has seen nothing yet.
    pub fn new(username: String) -> (downloader: HlsDownloader)
        ensures
            downloader@ == DownloaderView::fresh(username@, false),
            downloader@.wf(),
    {
        HlsDownloader {
            downloaded_segments: StringHashSet::new(),
            failed_segment_attempts: StringHashMap::new(),
            init_segment_downloaded: false,
            listens_for_shutdown: false,
            username,
            total_processed_segments: 0,
            segments_since_flush: 0,
        }
    }

    /// The downloader, now heeding a shutdown channel.
    pub fn with_shutdown_receiver(self) -> (downloader: HlsDownloader)
        ensures
            downloader@ == (DownloaderView { listens_for_shutdown: true, ..self@ }),
            self@.wf() ==> downloader@.wf(),
    {
        HlsDownloader { listens_for_shutdown: true, ..self }
    }

    /// Whether a look at the shutdown channel tells the downloader to stop. A channel that is
    /// closed, or whose signal was missed, counts as a signal; without a channel nothing does.
    pub fn check_shutdown_signal(&self, poll: ShutdownPoll) -> (stop: bool)
        ensures
            stop == (self@.listens_for_shutdown && poll != ShutdownPoll::Empty),
    {
        if self.listens_for_shutdown {
            match poll {
                ShutdownPoll::Received => true,
                ShutdownPoll::Empty => false,
                ShutdownPoll::Closed => true,
                ShutdownPoll::Lagged => true,
            }
        } else {
            false
        }
    }

    /// Whether the end of a wait tells the downloader to stop.
    pub fn interruptible_sleep(&self, end: WaitEnd) -> (stop: bool)
        ensures
            stop == (self@.listens_for_shutdown && end != WaitEnd::Elapsed(ShutdownPoll::Empty)),
    {
        match end {
            WaitEnd::Elapsed(poll) => self.check_shutdown_signal(poll),
            WaitEnd::Signalled => self.listens_for_shutdown,
        }
    }

    /// The user whose stream is downloaded.
    pub fn username(&self) -> (name: &str)
        ensures
            name@ == self@.username,
    {
        self.username.as_str()
    }

    /// How many segments were written.
    pub fn total_processed_segments(&self) -> (count: usize)
        ensures
            count == self@.total_processed,
    {
        self.total_processed_segments
    }

    /// Forgets the initialization segment: the next part needs its own.
    pub(crate) fn forget_init_segment(&mut self)
        ensures
            final(self)@ == (DownloaderView { init_segment_downloaded: false, ..old(self)@ }),
    {
        self.init_segment_downloaded = false;
    }

    /// The address of the initialization segment that the playlist names, if it names one. The
    /// error is the address parser's message.
    pub fn extract_init_segment(
        &self,
        content: &str,
        playlist_url: &str,
    ) -> (address: Result<Option<String>, String>)
        ensures
            match address {
                Ok(found) => playlist_init_address(content@, playlist_url@) == Ok::<
                    Option<Seq<char>>,
                    Seq<char>,
                >(optional_text(found)),
                Err(message) => playlist_init_address(content@, playlist_url@) == Err::<
                    Option<Seq<char>>,
                    Seq<char>,
                >(message@),
            },
    {
        let uri: Option<String> = find_init_uri(content);
        match uri {
            None => Ok(None),
            Some(text) => if is_absolute_address(text.as_str()) {
                Ok(Some(text))
            } else {
                let joined: Result<String, String> = join_url(playlist_url, text.as_str());
                choose_init_address(Some(text), joined)
            },
        }
    }

    /// The URIs that are still to be fetched, in their order.
    pub fn select_unseen(&self, uris: Vec<String>) -> (selected: Vec<String>)
        ensures
            text_views(selected@) == unseen(text_views(uris@), self@.downloaded),
    {
        let mut selected: Vec<String> = Vec::new();
        let ghost all = text_views(uris@);
        let ghost keep = |uri: Seq<char>| !self@.downloaded.contains(uri);
        let mut i: usize = 0;
        assert(all.take(0).filter(keep) =~= text_views(selected@)) by {
            reveal(Seq::filter);
        }
        while i < uris.len()
            invariant
                i <= uris@.len(),
                all == text_views(uris@),
                keep == (|uri: Seq<char>| !self@.downloaded.contains(uri)),
                text_views(selected@) == all.take(i as int).filter(keep),
            decreases uris@.len() - i,
        {
            proof {
                reveal(Seq::filter);
                assert(all.take(i + 1).drop_last() =~= all.take(i as int));
                assert(all.take(i + 1).last() == uris@[i as int]@);
            }
            if !self.downloaded_segments.contains(uris[i].as_str()) {
                let ghost before = selected@;
                selected.push(uris[i].clone());
                assert(text_views(selected@) =~= text_views(before).push(uris@[i as int]@));
            }
            i = i + 1;
        }
        assert(all.take(i as int) =~= all);
        selected
    }

    /// Settles a URI: it is not fetched again.
    fn settle(&mut self, uri: &str)
        requires
            old(self)@.wf(),
        ensures
            final(self)@ == old(self)@.settled(uri@),
            final(self)@.wf(),
    {
        self.downloaded_segments.insert(uri.to_string());
        self.failed_segment_attempts.remove(uri);
        assert forall|other: Seq<char>| #[trigger] self@.failed.contains_key(other) implies 0
            < self@.failed[other] < MAX_SEGMENT_FAILURES by {
            assert(old(self)@.failed.contains_key(other));
        }
    }

    /// Counts one more failed round of a URI, and settles the URI when that was the last one
    /// allowed. Says whether it was.
    fn count_failure(&mut self, uri: &str) -> (given_up: bool)
        requires
            old(self)@.wf(),
        ensures
            given_up == (old(self)@.failures(uri@) + 1 >= MAX_SEGMENT_FAILURES),
            final(self)@ == if given_up {
                old(self)@.settled(uri@)
            } else {
                DownloaderView {
                    failed: old(self)@.failed.insert(
                        uri@,
                        (old(self)@.failures(uri@) + 1) as u32,
                    ),
                    ..old(self)@
                }
            },
            final(self)@.wf(),
    {
        let before: u32 = match self.failed_segment_attempts.get(uri) {
            Some(count) => {
                assert(self@.failed.contains_key(uri@));
                *count
            },
            None => 0,
        };
        let attempts: u32 = before + 1;
        if attempts >= MAX_SEGMENT_FAILURES {
            self.settle(uri);
            true
        } else {
            self.failed_segment_attempts.insert(uri.to_string(), attempts);
            false
        }
    }

    /// Turns a round to its segments.
    fn plan(&self, round: &mut PlaylistRound) -> (action: RoundAction)
        requires
            old(round)@.phase != RoundPhase::Segment,
            old(round)@.phase != RoundPhase::SegmentWrite,
            old(round)@.phase != RoundPhase::Flush,
        ensures
            (RoundState { downloader: self@, round: final(round)@, action: action@ }) == plan(
                self@,
                old(round)@,
            ),
            final(round)@.wf(),
    {
        let parsed: Result<Playlist, String> = parse_playlist(round.content.as_str().as_bytes());
        let base: Result<String, String> = parse_url(round.playlist_url.as_str());
        match playlist_uris(parsed, base) {
            Err(error) => round.fail(error),
            Ok(uris) => {
                let selected: Vec<String> = self.select_unseen(uris);
                let segments: Vec<NewSegment> = address_segments(
                    selected,
                    round.playlist_url.as_str(),
                );
                round.begin_segments(segments)
            },
        }
    }

    /// The text of the playlist is here.
    fn take_content(&self, round: &mut PlaylistRound, content: String) -> (action: RoundAction)
        requires
            old(round)@.phase == RoundPhase::Content,
        ensures
            (RoundState { downloader: self@, round: final(round)@, action: action@ })
                == after_content(self@, old(round)@, content@),
            final(round)@.wf(),
    {
        round.target_duration = target_duration(content.as_str());
        round.content = content;
        if self.init_segment_downloaded {
            return self.plan(round);
        }
        match self.extract_init_segment(round.content.as_str(), round.playlist_url.as_str()) {
            Err(message) => round.fail(RoundError::Url(message)),
            Ok(None) => self.plan(round),
            Ok(Some(address)) => {
                round.phase = RoundPhase::Init;
                RoundAction::FetchInit(address)
            },
        }
    }

    /// The text of the playlist is here, as the server sent it. The round goes on with what the
    /// caller's processor makes of it, where there is one.
    pub fn take_playlist<F: Fn(&str) -> String>(
        &mut self,
        round: &mut PlaylistRound,
        body: String,
        m3u_processor: Option<&F>,
    ) -> (action: RoundAction)
        requires
            old(self)@.wf(),
            old(round)@.phase == RoundPhase::Content,
            m3u_processor matches Some(f) ==> forall|text: &str|
                text@ == body@ ==> call_requires(*f, (text,)),
        ensures
            exists|processed: String| #[trigger]
                is_processed(m3u_processor, body@, processed) && (RoundState {
                    downloader: final(self)@,
                    round: final(round)@,
                    action: action@,
                }) == round_step(old(self)@, old(round)@, RoundEventView::Content(processed@)),
            final(self)@.wf(),
            final(round)@.wf(),
    {
        let processed: String = process_playlist(body, m3u_processor);
        let ghost text = processed;
        assert(is_processed(m3u_processor, body@, text));
        self.download_playlist_segments(round, RoundEvent::Content(processed))
    }

    /// The current segment is in the output for good.
    fn store(&mut self, round: &mut PlaylistRound) -> (action: RoundAction)
        requires
            old(self)@.wf(),
            old(round)@.wf(),
            0 <= old(round)@.next < old(round)@.segments.len(),
            old(round)@.consecutive_failed < MAX_CONSECUTIVE_FAILED_SEGMENTS,
        ensures
            (RoundState { downloader: final(self)@, round: final(round)@, action: action@ }) == stored(
                old(self)@,
                old(round)@,
            ),
            final(self)@.wf(),
            final(round)@.wf(),
    {
        assert(round@.current() == round.segments@[round.next as int]@);
        self.settle(round.segments[round.next].uri.as_str());
        round.any_succeeded = true;
        round.advance(Ghost(self@))
    }

    /// The current segment could not be fetched.
    fn take_failure(&mut self, round: &mut PlaylistRound, message: &str) -> (action: RoundAction)
        requires
            old(self)@.wf(),
            old(round)@.wf(),
            old(round)@.phase == RoundPhase::Segment,
        ensures
            (RoundState { downloader: final(self)@, round: final(round)@, action: action@ })
                == after_failure(old(self)@, old(round)@, message@),
            final(self)@.wf(),
            final(round)@.wf(),
    {
        assert(round@.current() == round.segments@[round.next as int]@);
        round.consecutive_failed_segments = round.consecutive_failed_segments + 1;
        if is_forbidden_message(message) {
            return round.finish(RoundOutcome::TicketedRoom);
        }
        if round.consecutive_failed_segments >= MAX_CONSECUTIVE_FAILED_SEGMENTS {
            return round.finish(RoundOutcome::FatalSegmentError);
        }
        if self.count_failure(round.segments[round.next].uri.as_str()) {
            round.advance(Ghost(self@))
        } else if round.any_succeeded {
            round.finish(RoundOutcome::DownloadedContent)
        } else {
            round.finish(RoundOutcome::PendingRetry)
        }
    }

    /// One round over the playlist: takes what happened last and says what to do next.
    ///
    /// Where reading, writing or flushing fails the round is dropped; what the downloader
    /// remembers then is what it remembered before the event that did not come.
    pub fn download_playlist_segments(
        &mut self,
        round: &mut PlaylistRound,
        event: RoundEvent,
    ) -> (action: RoundAction)
        requires
            old(self)@.wf(),
            old(round)@.wf(),
            awaits(old(round)@.phase, event@),
            event is SegmentWritten ==> old(self)@.total_processed < usize::MAX,
        ensures
            (RoundState { downloader: final(self)@, round: final(round)@, action: action@ })
                == round_step(old(self)@, old(round)@, event@),
            final(self)@.wf(),
            final(round)@.wf(),
    {
        match event {
            RoundEvent::Response(status) => {
                if 200 <= status && status < 300 {
                    round.phase = RoundPhase::Content;
                    RoundAction::ReadContent
                } else if status == 403 {
                    round.finish(RoundOutcome::TicketedRoom)
                } else {
                    round.fail(RoundError::Status(status))
                }
            },
            RoundEvent::Content(content) => self.take_content(round, content),
            RoundEvent::InitFetched(data) => {
                round.phase = RoundPhase::InitWrite;
                RoundAction::WriteInit(data)
            },
            RoundEvent::InitFailed => {
                round.init_failed = true;
                self.plan(round)
            },
            RoundEvent::InitWritten => {
                self.init_segment_downloaded = true;
                round.init_just_downloaded = true;
                self.plan(round)
            },
            RoundEvent::SegmentFetched(data) => {
                if data.len() == 0 {
                    assert(round@.current() == round.segments@[round.next as int]@);
                    self.settle(round.segments[round.next].uri.as_str());
                    round.advance(Ghost(self@))
                } else {
                    round.consecutive_failed_segments = 0;
                    round.phase = RoundPhase::SegmentWrite;
                    RoundAction::WriteSegment(data)
                }
            },
            RoundEvent::SegmentFailed(message) => self.take_failure(round, message.as_str()),
            RoundEvent::SegmentWritten => {
                self.total_processed_segments = self.total_processed_segments + 1;
                self.segments_since_flush = self.segments_since_flush + 1;
                if self.segments_since_flush >= FLUSH_INTERVAL {
                    round.phase = RoundPhase::Flush;
                    RoundAction::Flush
                } else {
                    self.store(round)
                }
            },
            RoundEvent::Flushed => {
                self.segments_since_flush = 0;
                self.store(round)
            },
        }
    }
}

} // verus!
