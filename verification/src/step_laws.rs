//! Laws of the single steps of a round: what each event does to the round, to the downloader's
//! memory, and to what is asked for next.
use crate::downloader::{
    addressed, awaits, listed_uris, playlist_uris, round_step, status_text, text_views, unseen,
    DownloaderView, HlsDownloader, PlaylistRound, RoundAction, RoundActionView, RoundError,
    RoundErrorView, RoundEvent, RoundEventView, RoundOutcome, RoundPhase, RoundState, RoundView,
};
use crate::links::{joined_url, parsed_url};
use crate::playlist::{
    first_target_duration, parsed_playlist, playlist_init_uri, playlist_target_duration, Playlist,
    PlaylistView,
};
use crate::playlist_laws::{law_absolute_addresses_begin_with_http, law_segment_addresses};
use crate::segment_laws::law_refusals_say_403_forbidden;
use crate::text::lines;
use vstd::prelude::*;

verus! {

/// A call does what the step says, with the texts and bytes of its arguments, and changes nothing
/// else.
pub proof fn law_calls_are_steps(event: RoundEvent, action: RoundAction)
    ensures
        forall|dl: &mut HlsDownloader, round: &mut PlaylistRound| #[trigger]
            call_ensures(
                HlsDownloader::download_playlist_segments,
                (dl, round, event),
                action,
            ) ==> {
                let next = round_step((*dl)@, (*round)@, event@);
                &&& (*final(dl))@ == next.downloader
                &&& (*final(round))@ == next.round
                &&& action@ == next.action
            },
        event matches RoundEvent::Response(status) ==> event@ == RoundEventView::Response(status),
        event matches RoundEvent::Content(text) ==> event@ == RoundEventView::Content(text@),
        event matches RoundEvent::InitFetched(data) ==> event@ == RoundEventView::InitFetched(data@),
        event is InitFailed ==> event@ == RoundEventView::InitFailed,
        event is InitWritten ==> event@ == RoundEventView::InitWritten,
        event matches RoundEvent::SegmentFetched(data) ==> event@
            == RoundEventView::SegmentFetched(data@),
        event matches RoundEvent::SegmentFailed(text) ==> event@
            == RoundEventView::SegmentFailed(text@),
        event is SegmentWritten ==> event@ == RoundEventView::SegmentWritten,
        event is Flushed ==> event@ == RoundEventView::Flushed,
        action matches RoundAction::FetchInit(address) ==> action@ == RoundActionView::FetchInit(
            address@,
        ),
        action matches RoundAction::WriteInit(data) ==> action@ == RoundActionView::WriteInit(data@),
        action matches RoundAction::FetchSegment(address) ==> action@
            == RoundActionView::FetchSegment(address@),
        action matches RoundAction::WriteSegment(data) ==> action@ == RoundActionView::WriteSegment(
            data@,
        ),
        action matches RoundAction::Finish(outcome, seconds) ==> action@ == RoundActionView::Finish(
            outcome,
            seconds,
        ),
        action is ReadContent <==> action@ is ReadContent,
        action is Flush <==> action@ is Flush,
        action is Fail <==> action@ is Fail,
{
}

/// A new downloader remembers nothing, and a new round waits for the server's answer, with a target
/// duration of six seconds.
pub proof fn law_beginnings(username: String, dl: HlsDownloader, url: &str, round: PlaylistRound)
    requires
        call_ensures(HlsDownloader::new, (username,), dl),
        call_ensures(PlaylistRound::new, (url,), round),
    ensures
        forall|uri: Seq<char>| !(#[trigger] dl@.downloaded.contains(uri)),
        forall|uri: Seq<char>| !(#[trigger] dl@.failed.contains_key(uri)),
        !dl@.init_segment_downloaded,
        !dl@.listens_for_shutdown,
        dl@.username == username@,
        dl@.total_processed == 0,
        dl@.since_flush == 0,
        round@.phase == RoundPhase::Response,
        round@.playlist_url == url@,
        round@.target_duration == 6,
        !round@.init_failed,
        !round@.init_just_downloaded,
{
}

/// The round ended with this outcome, and its target duration is handed on.
pub open spec fn ended_with(round: RoundView, next: RoundState, outcome: RoundOutcome) -> bool {
    &&& next.round.phase == RoundPhase::Over
    &&& next.action == RoundActionView::Finish(outcome, round.target_duration)
}

/// The round ended with this error.
pub open spec fn failed_with(next: RoundState, error: RoundErrorView) -> bool {
    &&& next.round.phase == RoundPhase::Over
    &&& next.action == RoundActionView::Fail(error)
}

/// A success is followed by the text of the playlist, a refusal means that the room asks for a
/// ticket, and every other answer is an error that holds its status. Nothing is remembered.
pub proof fn law_answers_decide(dl: DownloaderView, round: RoundView, status: u16)
    ensures
        ({
            let next = round_step(dl, round, RoundEventView::Response(status));
            &&& next.downloader == dl
            &&& 200 <= status <= 299 ==> next.action == RoundActionView::ReadContent
                && next.round.phase == RoundPhase::Content
            &&& status == 403 ==> ended_with(round, next, RoundOutcome::TicketedRoom)
            &&& (status < 200 || status > 299) && status != 403 ==> failed_with(
                next,
                RoundErrorView::Status(status),
            )
            &&& next.round.playlist_url == round.playlist_url
            &&& next.round.target_duration == round.target_duration
            &&& next.round.init_failed == round.init_failed
            &&& next.round.init_just_downloaded == round.init_just_downloaded
        }),
{
}

/// Of the listed URIs those that are settled are left out, and the others stay in their order.
pub proof fn law_settled_uris_are_left_out(
    uris: Seq<Seq<char>>,
    uri: Seq<char>,
    settled: Set<Seq<char>>,
)
    ensures
        unseen(seq![], settled).len() == 0,
        settled.contains(uri) ==> unseen(uris.push(uri), settled) == unseen(uris, settled),
        !settled.contains(uri) ==> unseen(uris.push(uri), settled) == unseen(uris, settled).push(
            uri,
        ),
{
    reveal(Seq::filter);
    assert(uris.push(uri).drop_last() =~= uris);
}

/// Each URI keeps its place and gets its address: its own where it begins with `http`, else the
/// joined one, else the URI itself.
pub proof fn law_every_uri_gets_its_address(
    uris: Seq<Seq<char>>,
    playlist_url: Seq<char>,
    i: int,
)
    requires
        0 <= i < uris.len(),
    ensures
        ({
            let segments = addressed(uris, playlist_url);
            let http = uris[i].len() >= 4 && uris[i].take(4) == seq!['h', 't', 't', 'p'];
            &&& segments.len() == uris.len()
            &&& segments[i].uri == uris[i]
            &&& segments[i].address == if http {
                uris[i]
            } else {
                match joined_url(playlist_url, uris[i]) {
                    Ok(address) => address,
                    Err(_) => uris[i],
                }
            }
        }),
{
    law_segment_addresses(uris[i], joined_url(playlist_url, uris[i]));
}

/// The playlist's own parser is heard first, and only a media playlist at a good address lists
/// URIs: all that the parser gave, in their order.
pub proof fn law_listed_uris(
    parsed: Result<PlaylistView, Seq<char>>,
    base: Result<Seq<char>, Seq<char>>,
)
    ensures
        match parsed {
            Err(message) => listed_uris(parsed, base) == Err::<Seq<Seq<char>>, RoundErrorView>(
                RoundErrorView::Playlist(message),
            ),
            Ok(PlaylistView::Master) => listed_uris(parsed, base) == Err::<
                Seq<Seq<char>>,
                RoundErrorView,
            >(RoundErrorView::MasterPlaylist),
            Ok(PlaylistView::Media(uris)) => match base {
                Err(message) => listed_uris(parsed, base) == Err::<Seq<Seq<char>>, RoundErrorView>(
                    RoundErrorView::Url(message),
                ),
                Ok(_) => listed_uris(parsed, base) == Ok::<Seq<Seq<char>>, RoundErrorView>(uris),
            },
        },
{
}

/// How a round turns to the segments of its playlist, given what the two parsers made of the
/// playlist and of its address.
pub open spec fn turned_to_segments(
    settled: Set<Seq<char>>,
    read: RoundView,
    next: RoundState,
) -> bool {
    match parsed_playlist(vstd::utf8::encode_utf8(read.content)) {
        Err(message) => failed_with(next, RoundErrorView::Playlist(message)),
        Ok(PlaylistView::Master) => failed_with(next, RoundErrorView::MasterPlaylist),
        Ok(PlaylistView::Media(uris)) => match parsed_url(read.playlist_url) {
            Err(message) => failed_with(next, RoundErrorView::Url(message)),
            Ok(_) => if read.init_failed {
                ended_with(read, next, RoundOutcome::PendingRetry)
            } else if forall|i: int| 0 <= i < uris.len() ==> settled.contains(#[trigger] uris[i]) {
                ended_with(
                    read,
                    next,
                    if read.init_just_downloaded {
                        RoundOutcome::DownloadedContent
                    } else {
                        RoundOutcome::NoNewSegments
                    },
                )
            } else {
                &&& next.round.phase == RoundPhase::Segment
                &&& next.round.segments == addressed(unseen(uris, settled), read.playlist_url)
                &&& next.round.next == 0
                &&& !next.round.any_succeeded
                &&& next.round.consecutive_failed == 0
                &&& next.round.segments.len() > 0
                &&& next.action == RoundActionView::FetchSegment(next.round.segments[0].address)
            },
        },
    }
}

proof fn lemma_nothing_unseen(uris: Seq<Seq<char>>, settled: Set<Seq<char>>)
    ensures
        unseen(uris, settled).len() == 0 <==> forall|i: int|
            0 <= i < uris.len() ==> settled.contains(#[trigger] uris[i]),
    decreases uris.len(),
{
    reveal(Seq::filter);
    if uris.len() > 0 {
        let front = uris.drop_last();
        lemma_nothing_unseen(front, settled);
        law_settled_uris_are_left_out(front, uris.last(), settled);
        assert(front.push(uris.last()) =~= uris);
        if unseen(uris, settled).len() == 0 {
            assert forall|i: int| 0 <= i < uris.len() implies settled.contains(#[trigger] uris[i]) by {
                if i < front.len() {
                    assert(front[i] == uris[i]);
                }
            }
        } else if forall|i: int| 0 <= i < uris.len() ==> settled.contains(#[trigger] uris[i]) {
            assert(settled.contains(uris[uris.len() - 1]));
            assert forall|i: int| 0 <= i < front.len() implies settled.contains(
                #[trigger] front[i],
            ) by {
                assert(front[i] == uris[i]);
            }
        }
    }
}

proof fn lemma_plan(dl: DownloaderView, read: RoundView)
    ensures
        turned_to_segments(dl.downloaded, read, crate::downloader::plan(dl, read)),
        crate::downloader::plan(dl, read).downloader == dl,
        same_playlist(read, crate::downloader::plan(dl, read).round),
{
    if let Ok(PlaylistView::Media(uris)) = parsed_playlist(vstd::utf8::encode_utf8(read.content)) {
        lemma_nothing_unseen(uris, dl.downloaded);
    }
}

/// The two rounds are over the same playlist.
pub open spec fn same_playlist(round: RoundView, other: RoundView) -> bool {
    &&& other.playlist_url == round.playlist_url
    &&& other.content == round.content
    &&& other.target_duration == round.target_duration
    &&& other.init_failed == round.init_failed
    &&& other.init_just_downloaded == round.init_just_downloaded
}

proof fn lemma_duration_fits(all: Seq<Seq<char>>)
    ensures
        first_target_duration(all) matches Some(seconds) ==> seconds <= u64::MAX,
    decreases all.len(),
{
    if all.len() > 0 {
        lemma_duration_fits(all.skip(1));
    }
}

/// The text of the playlist gives the round its target duration. Where the initialization segment
/// is missing and the text names one, it is fetched first: from its URI where that begins with
/// `http`, else from the joined address; an address that does not join is an error. Else the round
/// turns to its segments. Nothing is remembered.
pub proof fn law_text_is_read(dl: DownloaderView, round: RoundView, content: Seq<char>)
    ensures
        ({
            let next = round_step(dl, round, RoundEventView::Content(content));
            &&& next.downloader == dl
            &&& next.round.content == content
            &&& next.round.playlist_url == round.playlist_url
            &&& next.round.target_duration == playlist_target_duration(content)
            &&& same_playlist(with_text(round, content), next.round)
            &&& match playlist_init_uri(content) {
                Some(uri) => if dl.init_segment_downloaded {
                    turned_to_segments(dl.downloaded, with_text(round, content), next)
                } else if uri.len() >= 4 && uri.take(4) == seq!['h', 't', 't', 'p'] {
                    next.round.phase == RoundPhase::Init && next.action
                        == RoundActionView::FetchInit(uri)
                } else {
                    match joined_url(round.playlist_url, uri) {
                        Ok(address) => next.round.phase == RoundPhase::Init && next.action
                            == RoundActionView::FetchInit(address),
                        Err(message) => failed_with(next, RoundErrorView::Url(message)),
                    }
                },
                None => turned_to_segments(dl.downloaded, with_text(round, content), next),
            }
        }),
{
    lemma_duration_fits(lines(content));
    lemma_plan(dl, with_text(round, content));
    if let Some(uri) = playlist_init_uri(content) {
        law_absolute_addresses_begin_with_http(uri);
        if uri.len() >= 4 {
            let front = uri.take(4);
            assert(front[0] == uri[0] && front[1] == uri[1] && front[2] == uri[2] && front[3]
                == uri[3]);
            if uri[0] == 'h' && uri[1] == 't' && uri[2] == 't' && uri[3] == 'p' {
                assert(front =~= seq!['h', 't', 't', 'p']);
            }
        }
    }
}

/// A round with the text of its playlist.
pub open spec fn with_text(round: RoundView, content: Seq<char>) -> RoundView {
    RoundView {
        content,
        target_duration: playlist_target_duration(content) as u64,
        ..round
    }
}

/// A fetched initialization segment is written as it is. Once it is written it is there, and the
/// round turns to its segments; where it cannot be fetched the round does so too, without it.
pub proof fn law_init_segment_comes_first(dl: DownloaderView, round: RoundView, data: Seq<u8>)
    ensures
        ({
            let next = round_step(dl, round, RoundEventView::InitFetched(data));
            &&& next.downloader == dl
            &&& next.action == RoundActionView::WriteInit(data)
            &&& next.round.phase == RoundPhase::InitWrite
            &&& same_playlist(round, next.round)
        }),
        ({
            let next = round_step(dl, round, RoundEventView::InitWritten);
            &&& next.downloader == (DownloaderView { init_segment_downloaded: true, ..dl })
            &&& turned_to_segments(
                dl.downloaded,
                RoundView { init_just_downloaded: true, ..round },
                next,
            )
            &&& same_playlist(RoundView { init_just_downloaded: true, ..round }, next.round)
        }),
        ({
            let next = round_step(dl, round, RoundEventView::InitFailed);
            &&& next.downloader == dl
            &&& turned_to_segments(dl.downloaded, RoundView { init_failed: true, ..round }, next)
            &&& same_playlist(RoundView { init_failed: true, ..round }, next.round)
        }),
{
    lemma_plan(dl, RoundView { init_failed: true, ..round });
    lemma_plan(
        DownloaderView { init_segment_downloaded: true, ..dl },
        RoundView { init_just_downloaded: true, ..round },
    );
}

/// The round went on behind its current segment: to the next one, or to its end, which tells
/// whether any segment was written.
pub open spec fn went_on(round: RoundView, next: RoundState, any_succeeded: bool) -> bool {
    &&& same_playlist(round, next.round)
    &&& next.round.segments == round.segments
    &&& next.round.any_succeeded == any_succeeded
    &&& if round.next + 1 < round.segments.len() {
        &&& next.round.phase == RoundPhase::Segment
        &&& next.round.next == round.next + 1
        &&& next.action == RoundActionView::FetchSegment(round.segments[round.next + 1].address)
    } else {
        ended_with(
            round,
            next,
            if any_succeeded {
                RoundOutcome::DownloadedContent
            } else {
                RoundOutcome::NoNewSegments
            },
        )
    }
}

/// The memory has this URI settled and nothing else changed about URIs: no other one is settled,
/// and no other count of failures is touched.
pub open spec fn settled_only(before: DownloaderView, after: DownloaderView, uri: Seq<char>) -> bool {
    &&& forall|other: Seq<char>| #[trigger]
        after.downloaded.contains(other) <==> before.downloaded.contains(other) || other == uri
    &&& forall|other: Seq<char>| #[trigger]
        after.failed.contains_key(other) <==> before.failed.contains_key(other) && other != uri
    &&& forall|other: Seq<char>| #[trigger]
        after.failed.contains_key(other) ==> after.failed[other] == before.failed[other]
    &&& after.init_segment_downloaded == before.init_segment_downloaded
    &&& after.listens_for_shutdown == before.listens_for_shutdown
    &&& after.username == before.username
}

/// A fetched segment is written as it is, and ends a run of failures; what is remembered does not
/// change before it is written. An empty one is settled, and the round goes on without a write and
/// without ending a run of failures.
pub proof fn law_fetched_segments_are_written(dl: DownloaderView, round: RoundView, data: Seq<u8>)
    ensures
        ({
            let next = round_step(dl, round, RoundEventView::SegmentFetched(data));
            &&& data.len() > 0 ==> {
                &&& next.downloader == dl
                &&& next.action == RoundActionView::WriteSegment(data)
                &&& next.round.phase == RoundPhase::SegmentWrite
                &&& next.round.consecutive_failed == 0
                &&& next.round.next == round.next
                &&& next.round.segments == round.segments
                &&& next.round.any_succeeded == round.any_succeeded
                &&& same_playlist(round, next.round)
            }
            &&& data.len() == 0 ==> {
                &&& settled_only(dl, next.downloader, round.segments[round.next].uri)
                &&& next.downloader.total_processed == dl.total_processed
                &&& next.downloader.since_flush == dl.since_flush
                &&& next.round.consecutive_failed == round.consecutive_failed
                &&& went_on(round, next, round.any_succeeded)
            }
        }),
{
}

/// A written segment is counted. It is settled and the round goes on, unless it is the tenth since
/// the last flush: that one is flushed first, and settled after that.
pub proof fn law_written_segments_are_settled(dl: DownloaderView, round: RoundView)
    ensures
        ({
            let next = round_step(dl, round, RoundEventView::SegmentWritten);
            &&& next.downloader.total_processed == dl.total_processed + 1
            &&& next.downloader.since_flush == dl.since_flush + 1
            &&& next.round.consecutive_failed == round.consecutive_failed
            &&& dl.since_flush + 1 < 10 ==> {
                &&& settled_only(dl, next.downloader, round.segments[round.next].uri)
                &&& went_on(round, next, true)
            }
            &&& dl.since_flush + 1 >= 10 ==> {
                &&& next.action == RoundActionView::Flush
                &&& next.round.phase == RoundPhase::Flush
                &&& next.round.next == round.next
                &&& next.round.segments == round.segments
                &&& next.round.any_succeeded == round.any_succeeded
                &&& same_playlist(round, next.round)
                &&& next.downloader.downloaded == dl.downloaded
                &&& next.downloader.failed == dl.failed
                &&& next.downloader.init_segment_downloaded == dl.init_segment_downloaded
            }
        }),
        ({
            let next = round_step(dl, round, RoundEventView::Flushed);
            &&& next.downloader.since_flush == 0
            &&& next.downloader.total_processed == dl.total_processed
            &&& next.round.consecutive_failed == round.consecutive_failed
            &&& settled_only(dl, next.downloader, round.segments[round.next].uri)
            &&& went_on(round, next, true)
        }),
{
}

/// What a failed segment leads to. A refusal, and a third failure in a row, end the round and leave
/// the memory alone. The fifth counted failure of a segment settles it, and the round goes on. Any
/// other failure is counted and ends the round, so that no segment overtakes it: with content where
/// a segment was written before it, else to be tried again.
pub proof fn law_failed_segments(dl: DownloaderView, round: RoundView, message: Seq<char>)
    requires
        dl.failed.contains_key(round.segments[round.next].uri) ==> 1
            <= dl.failed[round.segments[round.next].uri] <= 4,
    ensures
        ({
            let next = round_step(dl, round, RoundEventView::SegmentFailed(message));
            let uri = round.segments[round.next].uri;
            let refused = exists|before: Seq<char>, behind: Seq<char>|
                message == #[trigger] (before + "403_FORBIDDEN"@ + behind);
            let third = round.consecutive_failed >= 2;
            let fifth = dl.failed.contains_key(uri) && dl.failed[uri] == 4;
            &&& next.round.consecutive_failed == round.consecutive_failed + 1
            &&& same_playlist(round, next.round)
            &&& next.downloader.total_processed == dl.total_processed
            &&& next.downloader.since_flush == dl.since_flush
            &&& refused ==> next.downloader == dl && ended_with(
                round,
                next,
                RoundOutcome::TicketedRoom,
            )
            &&& !refused && third ==> next.downloader == dl && ended_with(
                round,
                next,
                RoundOutcome::FatalSegmentError,
            )
            &&& !refused && !third && fifth ==> settled_only(dl, next.downloader, uri) && went_on(
                round,
                next,
                round.any_succeeded,
            )
            &&& !refused && !third && !fifth ==> {
                &&& ended_with(
                    round,
                    next,
                    if round.any_succeeded {
                        RoundOutcome::DownloadedContent
                    } else {
                        RoundOutcome::PendingRetry
                    },
                )
                &&& next.downloader.downloaded == dl.downloaded
                &&& next.downloader.failed.contains_key(uri)
                &&& next.downloader.failed[uri] == if dl.failed.contains_key(uri) {
                    dl.failed[uri] + 1
                } else {
                    1
                }
                &&& forall|other: Seq<char>|
                    other != uri ==> (#[trigger] next.downloader.failed.contains_key(other)
                        == dl.failed.contains_key(other)) && (dl.failed.contains_key(other)
                        ==> next.downloader.failed[other] == dl.failed[other])
                &&& next.downloader.init_segment_downloaded == dl.init_segment_downloaded
                &&& next.downloader.listens_for_shutdown == dl.listens_for_shutdown
                &&& next.downloader.username == dl.username
            }
        }),
{
    law_refusals_say_403_forbidden(message);
}

/// Each event is waited for in its own phase, and in no other.
pub proof fn law_events_have_their_turn(phase: RoundPhase, event: RoundEventView)
    ensures
        awaits(phase, event) <==> match phase {
            RoundPhase::Response => event is Response,
            RoundPhase::Content => event is Content,
            RoundPhase::Init => event is InitFetched || event is InitFailed,
            RoundPhase::InitWrite => event is InitWritten,
            RoundPhase::Segment => event is SegmentFetched || event is SegmentFailed,
            RoundPhase::SegmentWrite => event is SegmentWritten,
            RoundPhase::Flush => event is Flushed,
            RoundPhase::Over => false,
        },
{
}

/// A round error's text gives what the error holds.
pub proof fn law_round_errors_say_what_is_wrong(error: RoundError, status: &str, message: String)
    requires
        call_ensures(RoundError::message_with, (&error, status), message),
    ensures
        match error {
            RoundError::Status(_) => message@ == "获取播放列表失败 ("@ + status@
                + "): 该地址可能已失效"@,
            RoundError::Url(text) => message@ == text@,
            RoundError::Playlist(text) => message@ == "解析 M3U8 失败: "@ + text@,
            RoundError::MasterPlaylist => message@ == "此上下文不支持主播放列表"@,
        },
{
}

/// A status error's text gives its own status code, as the code is written.
pub proof fn law_status_errors_give_their_status(code: u16, message: String)
    requires
        call_ensures(RoundError::message, (&RoundError::Status(code),), message),
    ensures
        message@ == "获取播放列表失败 ("@ + status_text(code) + "): 该地址可能已失效"@,
{
}

/// The URIs of a playlist from what the two parsers gave: the playlist's own error first, no master
/// playlist, the address's error next, and else all URIs as they are.
pub proof fn law_uris_come_from_the_parsers(
    parsed: Result<Playlist, String>,
    base: Result<String, String>,
    uris: Result<Vec<String>, RoundError>,
)
    requires
        call_ensures(playlist_uris, (parsed, base), uris),
    ensures
        match parsed {
            Err(message) => uris matches Err(RoundError::Playlist(text)) && text@ == message@,
            Ok(Playlist::Master) => uris matches Err(RoundError::MasterPlaylist),
            Ok(Playlist::Media(listed)) => match base {
                Err(message) => uris matches Err(RoundError::Url(text)) && text@ == message@,
                Ok(_) => uris matches Ok(found) && found@.len() == listed@.len() && forall|i: int|
                    0 <= i < listed@.len() ==> (#[trigger] found@[i])@ == listed@[i]@,
            },
        },
{
    if let Ok(Playlist::Media(listed)) = parsed {
        if base is Ok {
            if let Ok(found) = uris {
                assert(text_views(found@) == listed@.map_values(|uri: String| uri@));
                assert(text_views(found@).len() == found@.len());
                assert(listed@.map_values(|uri: String| uri@).len() == listed@.len());
                assert forall|i: int| 0 <= i < listed@.len() implies (#[trigger] found@[i])@
                    == listed@[i]@ by {
                    assert(text_views(found@)[i] == found@[i]@);
                    assert(listed@.map_values(|uri: String| uri@)[i] == listed@[i]@);
                }
            }
        }
    }
}

/// The URIs that are still to be fetched are those that are not settled, in their order.
pub proof fn law_unsettled_uris_are_selected(
    downloader: &HlsDownloader,
    uris: Vec<String>,
    selected: Vec<String>,
)
    requires
        call_ensures(HlsDownloader::select_unseen, (downloader, uris), selected),
    ensures
        selected@.map_values(|uri: String| uri@) == uris@.map_values(|uri: String| uri@).filter(
            |uri: Seq<char>| !downloader@.downloaded.contains(uri),
        ),
{
}

} // verus!
