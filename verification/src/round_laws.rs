//! Laws of the rounds over a playlist: what the downloader remembers over many events.
use crate::downloader::{
    addressed, after_failure, awaits, listed_uris, plan, round_step, unseen, with_segments,
    DownloaderView, RoundActionView, RoundEventView, RoundOutcome, RoundPhase, RoundState,
    RoundView, FLUSH_INTERVAL, MAX_CONSECUTIVE_FAILED_SEGMENTS,
};
use crate::links::parsed_url;
use crate::playlist::parsed_playlist;
use crate::segment::says_forbidden;
use vstd::prelude::*;

verus! {

/// A round with the downloader's memory after several events.
pub open spec fn round_run(start: RoundState, events: Seq<RoundEventView>) -> RoundState
    decreases events.len(),
{
    if events.len() == 0 {
        start
    } else {
        let before = round_run(start, events.drop_last());
        round_step(before.downloader, before.round, events.last())
    }
}

/// Every event comes when the round waits for it.
pub open spec fn comes_in_turn(start: RoundState, events: Seq<RoundEventView>) -> bool
    decreases events.len(),
{
    events.len() > 0 ==> {
        &&& comes_in_turn(start, events.drop_last())
        &&& awaits(round_run(start, events.drop_last()).round.phase, events.last())
    }
}

/// One round of a session: the playlist's address, whether a new part of the recording begins with
/// the round, and what happened to the round. A round may also be dropped before its end.
pub struct PlayedRound {
    pub playlist_url: Seq<char>,
    pub new_part: bool,
    pub events: Seq<RoundEventView>,
}

/// A round of a session before its first event. A new part needs its own initialization segment.
pub open spec fn round_start(dl: DownloaderView, played: PlayedRound) -> RoundState {
    RoundState {
        downloader: DownloaderView {
            init_segment_downloaded: dl.init_segment_downloaded && !played.new_part,
            ..dl
        },
        round: RoundView::start(played.playlist_url),
        action: RoundActionView::ReadContent,
    }
}

/// A round of a session after its last event.
pub open spec fn round_end(dl: DownloaderView, played: PlayedRound) -> RoundState {
    round_run(round_start(dl, played), played.events)
}

/// The memory after several rounds.
pub open spec fn after_rounds(dl: DownloaderView, rounds: Seq<PlayedRound>) -> DownloaderView
    decreases rounds.len(),
{
    if rounds.len() == 0 {
        dl
    } else {
        round_end(after_rounds(dl, rounds.drop_last()), rounds.last()).downloader
    }
}

/// In every round every event comes when the round waits for it.
pub open spec fn is_session(dl: DownloaderView, rounds: Seq<PlayedRound>) -> bool
    decreases rounds.len(),
{
    rounds.len() > 0 ==> {
        &&& is_session(dl, rounds.drop_last())
        &&& comes_in_turn(
            round_start(after_rounds(dl, rounds.drop_last()), rounds.last()),
            rounds.last().events,
        )
    }
}

/// No round is dropped while its output is being flushed.
pub open spec fn every_flush_succeeds(dl: DownloaderView, rounds: Seq<PlayedRound>) -> bool
    decreases rounds.len(),
{
    rounds.len() > 0 ==> {
        &&& every_flush_succeeds(dl, rounds.drop_last())
        &&& round_end(after_rounds(dl, rounds.drop_last()), rounds.last()).round.phase
            != RoundPhase::Flush
    }
}

/// What is settled stays settled, whatever happens next.
pub proof fn law_settled_stays_settled(dl: DownloaderView, round: RoundView, event: RoundEventView)
    ensures
        dl.downloaded.subset_of(round_step(dl, round, event).downloader.downloaded),
{
}

/// What is settled stays settled over any number of events.
pub proof fn law_settled_stays_settled_over_a_run(start: RoundState, events: Seq<RoundEventView>)
    ensures
        start.downloader.downloaded.subset_of(round_run(start, events).downloader.downloaded),
    decreases events.len(),
{
    if events.len() > 0 {
        let before = round_run(start, events.drop_last());
        law_settled_stays_settled_over_a_run(start, events.drop_last());
        law_settled_stays_settled(before.downloader, before.round, events.last());
    }
}

/// A round fetches only listed segments that are not settled, and it fetches all of those.
pub proof fn law_rounds_fetch_what_is_unsettled(
    uris: Seq<Seq<char>>,
    downloaded: Set<Seq<char>>,
    playlist_url: Seq<char>,
)
    ensures
        forall|i: int|
            0 <= i < addressed(unseen(uris, downloaded), playlist_url).len() ==> {
                let uri = (#[trigger] addressed(unseen(uris, downloaded), playlist_url)[i]).uri;
                !downloaded.contains(uri) && uris.contains(uri)
            },
        forall|uri: Seq<char>|
            uris.contains(uri) && !downloaded.contains(uri) ==> #[trigger] unseen(
                uris,
                downloaded,
            ).contains(uri),
{
    let keep = |uri: Seq<char>| !downloaded.contains(uri);
    let kept = unseen(uris, downloaded);
    assert forall|i: int| 0 <= i < addressed(kept, playlist_url).len() implies {
        let uri = (#[trigger] addressed(kept, playlist_url)[i]).uri;
        !downloaded.contains(uri) && uris.contains(uri)
    } by {
        uris.lemma_filter_contains_rev(keep, kept[i]);
        uris.lemma_filter_pred(keep, i);
        assert(keep(kept[i]));
    }
    assert forall|uri: Seq<char>| uris.contains(uri) && !downloaded.contains(uri) implies #[trigger] kept.contains(
        uri,
    ) by {
        let i = choose|i: int| 0 <= i < uris.len() && uris[i] == uri;
        assert(keep(uris[i]));
        uris.lemma_filter_contains(keep, i);
    }
}

/// What is settled stays settled over any number of rounds.
pub proof fn law_settled_stays_settled_over_rounds(dl: DownloaderView, rounds: Seq<PlayedRound>)
    ensures
        dl.downloaded.subset_of(after_rounds(dl, rounds).downloaded),
    decreases rounds.len(),
{
    if rounds.len() > 0 {
        let before = after_rounds(dl, rounds.drop_last());
        law_settled_stays_settled_over_rounds(dl, rounds.drop_last());
        law_settled_stays_settled_over_a_run(
            round_start(before, rounds.last()),
            rounds.last().events,
        );
    }
}

/// A segment that was settled once is not among those that a later round fetches, whatever
/// happened in the rounds in between and whatever that round's playlist lists.
pub proof fn law_settled_is_not_fetched_again(
    dl: DownloaderView,
    rounds: Seq<PlayedRound>,
    uri: Seq<char>,
    uris: Seq<Seq<char>>,
)
    requires
        dl.downloaded.contains(uri),
    ensures
        !unseen(uris, after_rounds(dl, rounds).downloaded).contains(uri),
{
    let downloaded = after_rounds(dl, rounds).downloaded;
    law_settled_stays_settled_over_rounds(dl, rounds);
    let kept = unseen(uris, downloaded);
    if kept.contains(uri) {
        let keep = |other: Seq<char>| !downloaded.contains(other);
        let i = choose|i: int| 0 <= i < kept.len() && kept[i] == uri;
        uris.lemma_filter_pred(keep, i);
        assert(keep(kept[i]));
    }
}

/// The current segment is fetched and written, and the output is flushed if that is asked for.
pub open spec fn segment_stored(state: RoundState, data: Seq<u8>) -> RoundState {
    let fetched = round_step(
        state.downloader,
        state.round,
        RoundEventView::SegmentFetched(data),
    );
    let written = round_step(fetched.downloader, fetched.round, RoundEventView::SegmentWritten);
    if written.round.phase == RoundPhase::Flush {
        round_step(written.downloader, written.round, RoundEventView::Flushed)
    } else {
        written
    }
}

/// The current segment and those behind it are fetched and written, with these contents.
pub open spec fn segments_stored(state: RoundState, contents: Seq<Seq<u8>>) -> RoundState
    decreases contents.len(),
{
    if contents.len() == 0 {
        state
    } else {
        segments_stored(segment_stored(state, contents[0]), contents.skip(1))
    }
}

/// A round whose segments are all fetched and written ends with content, has counted each of them,
/// and has settled all of them.
#[verifier::spinoff_prover]
#[verifier::rlimit(60)]
pub proof fn law_a_good_round_settles_its_segments(state: RoundState, contents: Seq<Seq<u8>>)
    requires
        state.round.phase == RoundPhase::Segment,
        state.round.wf(),
        contents.len() == state.round.segments.len() - state.round.next,
        forall|i: int| 0 <= i < contents.len() ==> (#[trigger] contents[i]).len() > 0,
    ensures
        ({
            let end = segments_stored(state, contents);
            &&& end.action == RoundActionView::Finish(
                RoundOutcome::DownloadedContent,
                state.round.target_duration,
            )
            &&& end.downloader.total_processed == state.downloader.total_processed + contents.len()
            &&& state.downloader.downloaded.subset_of(end.downloader.downloaded)
            &&& forall|i: int|
                state.round.next <= i < state.round.segments.len()
                    ==> end.downloader.downloaded.contains(
                    (#[trigger] state.round.segments[i]).uri,
                )
            &&& end.downloader.init_segment_downloaded == state.downloader.init_segment_downloaded
        }),
    decreases contents.len(),
{
    let next = segment_stored(state, contents[0]);
    assert(contents[0].len() > 0);
    assert(next.downloader.downloaded == state.downloader.downloaded.insert(
        state.round.current().uri,
    ));
    assert(next.downloader.total_processed == state.downloader.total_processed + 1);
    assert(next.round.segments == state.round.segments);
    assert(next.round.any_succeeded);
    if contents.len() == 1 {
        assert(contents.skip(1).len() == 0);
        assert(segments_stored(next, contents.skip(1)) == next);
        assert forall|i: int| state.round.next <= i < state.round.segments.len() implies next.downloader.downloaded.contains(
        (#[trigger] state.round.segments[i]).uri) by {
            assert(i == state.round.next);
        }
    } else {
        assert forall|i: int| 0 <= i < contents.skip(1).len() implies (#[trigger] contents.skip(1)[i]).len()
            > 0 by {
            assert(contents[i + 1].len() > 0);
        }
        law_a_good_round_settles_its_segments(next, contents.skip(1));
        let end = segments_stored(next, contents.skip(1));
        assert forall|i: int| state.round.next <= i < state.round.segments.len() implies end.downloader.downloaded.contains(
        (#[trigger] state.round.segments[i]).uri) by {
            if i == state.round.next {
                assert(next.downloader.downloaded.contains(state.round.segments[i].uri));
            } else {
                assert(next.round.segments[i] == state.round.segments[i]);
            }
        }
    }
}

/// After a round that fetched and wrote all new segments of a playlist, another round over the same
/// segments finds nothing new: nothing is recorded twice.
pub proof fn law_nothing_is_recorded_twice(
    dl: DownloaderView,
    round: RoundView,
    uris: Seq<Seq<char>>,
    contents: Seq<Seq<u8>>,
    later: RoundView,
)
    requires
        !round.init_failed,
        unseen(uris, dl.downloaded).len() > 0,
        contents.len() == unseen(uris, dl.downloaded).len(),
        forall|i: int| 0 <= i < contents.len() ==> (#[trigger] contents[i]).len() > 0,
        !later.init_failed,
        !later.init_just_downloaded,
    ensures
        ({
            let begun = with_segments(
                dl,
                round,
                addressed(unseen(uris, dl.downloaded), round.playlist_url),
            );
            let end = segments_stored(begun, contents);
            let again = with_segments(
                end.downloader,
                later,
                addressed(unseen(uris, end.downloader.downloaded), later.playlist_url),
            );
            &&& end.action == RoundActionView::Finish(
                RoundOutcome::DownloadedContent,
                round.target_duration,
            )
            &&& again.action == RoundActionView::Finish(
                RoundOutcome::NoNewSegments,
                later.target_duration,
            )
        }),
{
    let segments = addressed(unseen(uris, dl.downloaded), round.playlist_url);
    let begun = with_segments(dl, round, segments);
    law_a_good_round_settles_its_segments(begun, contents);
    let settled = segments_stored(begun, contents).downloader.downloaded;
    law_rounds_fetch_what_is_unsettled(uris, dl.downloaded, round.playlist_url);
    let left = unseen(uris, settled);
    if left.len() > 0 {
        let uri = left[0];
        let keep = |other: Seq<char>| !settled.contains(other);
        uris.lemma_filter_pred(keep, 0);
        assert(keep(left[0]));
        uris.lemma_filter_contains_rev(keep, uri);
        if dl.downloaded.contains(uri) {
            assert(settled.contains(uri));
        } else {
            let fetched = unseen(uris, dl.downloaded);
            assert(fetched.contains(uri));
            let i = choose|i: int| 0 <= i < fetched.len() && fetched[i] == uri;
            assert(begun.round.segments[i].uri == uri);
        }
    }
}

/// The segments are taken in their order, one after the other: whenever a round waits for a
/// segment, it has just asked for the current one, and from one event to the next the current one
/// stays or is followed by the next.
pub proof fn law_segments_are_taken_in_order(dl: DownloaderView, round: RoundView, event: RoundEventView)
    requires
        awaits(round.phase, event),
        round.wf(),
    ensures
        ({
            let next = round_step(dl, round, event);
            &&& next.round.phase == RoundPhase::Segment ==> next.action
                == RoundActionView::FetchSegment(next.round.current().address)
            &&& round.phase == RoundPhase::Segment || round.phase == RoundPhase::SegmentWrite
                || round.phase == RoundPhase::Flush ==> {
                &&& next.round.segments == round.segments
                &&& next.round.next == round.next || next.round.next == round.next + 1
            }
        }),
{
}

/// The initialization segment is asked for only while it is not there, and it is there exactly
/// from the moment it is written on.
pub proof fn law_init_segment_is_fetched_once(dl: DownloaderView, round: RoundView, event: RoundEventView)
    requires
        awaits(round.phase, event),
    ensures
        round_step(dl, round, event).action is FetchInit ==> !dl.init_segment_downloaded,
        round_step(dl, round, event).downloader.init_segment_downloaded == (
        dl.init_segment_downloaded || event is InitWritten),
{
}

/// A refusal, and a failure that comes after two others in a row, end the round and leave the
/// memory as it is.
pub proof fn law_refusals_are_not_counted(dl: DownloaderView, round: RoundView, message: Seq<char>)
    requires
        says_forbidden(message) || round.consecutive_failed + 1 >= MAX_CONSECUTIVE_FAILED_SEGMENTS,
    ensures
        ({
            let next = after_failure(dl, round, message);
            &&& next.downloader == dl
            &&& next.action == RoundActionView::Finish(
                if says_forbidden(message) {
                    RoundOutcome::TicketedRoom
                } else {
                    RoundOutcome::FatalSegmentError
                },
                round.target_duration,
            )
        }),
{
}

/// Fewer than ten segments wait to be flushed; ten only while the flush is under way.
pub open spec fn few_segments_wait(dl: DownloaderView, phase: RoundPhase) -> bool {
    dl.since_flush < FLUSH_INTERVAL || (phase == RoundPhase::Flush && dl.since_flush
        == FLUSH_INTERVAL)
}

/// While nothing goes wrong with the output, at most ten segments wait to be flushed, and ten only
/// while the flush is under way.
pub proof fn law_ten_segments_are_flushed(dl: DownloaderView, round: RoundView, event: RoundEventView)
    requires
        awaits(round.phase, event),
        few_segments_wait(dl, round.phase),
    ensures
        ({
            let next = round_step(dl, round, event);
            &&& few_segments_wait(next.downloader, next.round.phase)
            &&& next.round.phase == RoundPhase::Flush ==> next.action == RoundActionView::Flush
        }),
{
}

/// No settled URI has a count of failures.
pub open spec fn no_settled_uri_is_counted(dl: DownloaderView) -> bool {
    forall|uri: Seq<char>| #[trigger] dl.failed.contains_key(uri) ==> !dl.downloaded.contains(uri)
}

/// No settled URI has a count of failures, and the segments that the round has still to do are
/// different from each other and not settled.
pub open spec fn counts_are_of_open_segments(dl: DownloaderView, round: RoundView) -> bool {
    &&& no_settled_uri_is_counted(dl)
    &&& round.phase == RoundPhase::Segment || round.phase == RoundPhase::SegmentWrite || round.phase
        == RoundPhase::Flush ==> {
        &&& forall|i: int, j: int|
            round.next <= i < j < round.segments.len() ==> (#[trigger] round.segments[i]).uri != (
            #[trigger] round.segments[j]).uri
        &&& forall|i: int|
            round.next <= i < round.segments.len() ==> !dl.downloaded.contains(
                (#[trigger] round.segments[i]).uri,
            )
    }
}

/// The playlist lists no URI twice.
pub open spec fn lists_no_uri_twice(content: Seq<char>, playlist_url: Seq<char>) -> bool {
    listed_uris(
        parsed_playlist(vstd::utf8::encode_utf8(content)),
        parsed_url(playlist_url),
    ) matches Ok(uris) ==> uris.no_duplicates()
}

/// The playlist that the round works on lists no URI twice. Of a round that has not read its
/// playlist yet, or is over, this says nothing.
pub open spec fn works_on_distinct_uris(round: RoundView) -> bool {
    round.phase == RoundPhase::Init || round.phase == RoundPhase::InitWrite || round.phase
        == RoundPhase::Segment || round.phase == RoundPhase::SegmentWrite || round.phase
        == RoundPhase::Flush ==> lists_no_uri_twice(round.content, round.playlist_url)
}

/// If the event brings a playlist, the playlist lists no URI twice.
pub open spec fn brings_distinct_uris(event: RoundEventView, playlist_url: Seq<char>) -> bool {
    event matches RoundEventView::Content(content) ==> lists_no_uri_twice(content, playlist_url)
}

/// No playlist of these rounds lists a URI twice.
pub open spec fn all_bring_distinct_uris(rounds: Seq<PlayedRound>) -> bool {
    forall|i: int, j: int|
        0 <= i < rounds.len() && 0 <= j < rounds[i].events.len() ==> brings_distinct_uris(
            #[trigger] rounds[i].events[j],
            rounds[i].playlist_url,
        )
}

proof fn lemma_unseen_no_duplicates(uris: Seq<Seq<char>>, downloaded: Set<Seq<char>>)
    requires
        uris.no_duplicates(),
    ensures
        unseen(uris, downloaded).no_duplicates(),
    decreases uris.len(),
{
    reveal(Seq::filter);
    if uris.len() > 0 {
        let front = uris.drop_last();
        lemma_unseen_no_duplicates(front, downloaded);
        let keep = |uri: Seq<char>| !downloaded.contains(uri);
        let kept = front.filter(keep);
        assert forall|i: int| 0 <= i < kept.len() implies #[trigger] kept[i] != uris.last() by {
            front.lemma_filter_contains_rev(keep, kept[i]);
            let k = choose|k: int| 0 <= k < front.len() && front[k] == kept[i];
            assert(uris[k] == kept[i]);
        }
    }
}

/// Turning to the segments keeps the counts to open segments.
proof fn lemma_plan_counts_are_of_open_segments(dl: DownloaderView, round: RoundView)
    requires
        no_settled_uri_is_counted(dl),
        lists_no_uri_twice(round.content, round.playlist_url),
    ensures
        counts_are_of_open_segments(plan(dl, round).downloader, plan(dl, round).round),
{
    let listed = listed_uris(
        parsed_playlist(vstd::utf8::encode_utf8(round.content)),
        parsed_url(round.playlist_url),
    );
    if let Ok(uris) = listed {
        lemma_unseen_no_duplicates(uris, dl.downloaded);
        law_rounds_fetch_what_is_unsettled(uris, dl.downloaded, round.playlist_url);
    }
}

/// Failures are counted of segments that are still to be fetched and of no others, as long as no
/// playlist lists a URI twice.
pub proof fn law_counts_are_of_open_segments(dl: DownloaderView, round: RoundView, event: RoundEventView)
    requires
        awaits(round.phase, event),
        round.wf(),
        counts_are_of_open_segments(dl, round),
        works_on_distinct_uris(round),
        brings_distinct_uris(event, round.playlist_url),
    ensures
        ({
            let next = round_step(dl, round, event);
            &&& counts_are_of_open_segments(next.downloader, next.round)
            &&& works_on_distinct_uris(next.round)
        }),
{
    match event {
        RoundEventView::Content(content) => {
            let read = RoundView {
                content,
                target_duration: crate::playlist::playlist_target_duration(content) as u64,
                ..round
            };
            lemma_plan_counts_are_of_open_segments(dl, read);
        },
        RoundEventView::InitFailed => {
            lemma_plan_counts_are_of_open_segments(dl, RoundView { init_failed: true, ..round });
        },
        RoundEventView::InitWritten => {
            lemma_plan_counts_are_of_open_segments(
                DownloaderView { init_segment_downloaded: true, ..dl },
                RoundView { init_just_downloaded: true, ..round },
            );
        },
        _ => {},
    }
}

/// Every count of failures is at least one and at most four.
pub open spec fn counts_are_in_range(dl: DownloaderView) -> bool {
    forall|uri: Seq<char>| #[trigger] dl.failed.contains_key(uri) ==> 1 <= dl.failed[uri] <= 4
}

/// A step keeps the round as it has to be, its address, and the counts in their range.
proof fn lemma_step_is_valid(dl: DownloaderView, round: RoundView, event: RoundEventView)
    requires
        awaits(round.phase, event),
        round.wf(),
        counts_are_in_range(dl),
    ensures
        round_step(dl, round, event).round.wf(),
        round_step(dl, round, event).round.playlist_url == round.playlist_url,
        counts_are_in_range(round_step(dl, round, event).downloader),
{
}

/// The events of one round keep what the memory has to be.
#[verifier::spinoff_prover]
#[verifier::rlimit(60)]
proof fn lemma_run_keeps_the_memory(
    start: RoundState,
    events: Seq<RoundEventView>,
    distinct: bool,
    flushed: bool,
)
    requires
        comes_in_turn(start, events),
        start.round.wf(),
        start.round.phase == RoundPhase::Response,
        counts_are_in_range(start.downloader),
        distinct ==> no_settled_uri_is_counted(start.downloader) && forall|j: int|
            0 <= j < events.len() ==> brings_distinct_uris(
                #[trigger] events[j],
                start.round.playlist_url,
            ),
        flushed ==> start.downloader.since_flush < FLUSH_INTERVAL,
    ensures
        ({
            let end = round_run(start, events);
            &&& end.round.wf()
            &&& end.round.playlist_url == start.round.playlist_url
            &&& counts_are_in_range(end.downloader)
            &&& distinct ==> counts_are_of_open_segments(end.downloader, end.round)
                && works_on_distinct_uris(end.round)
            &&& flushed ==> few_segments_wait(end.downloader, end.round.phase)
        }),
    decreases events.len(),
{
    if events.len() > 0 {
        let front = events.drop_last();
        assert forall|j: int| distinct && 0 <= j < front.len() implies brings_distinct_uris(
            #[trigger] front[j],
            start.round.playlist_url,
        ) by {
            assert(front[j] == events[j]);
        }
        lemma_run_keeps_the_memory(start, front, distinct, flushed);
        let before = round_run(start, front);
        lemma_step_is_valid(before.downloader, before.round, events.last());
        if distinct {
            assert(brings_distinct_uris(events[events.len() - 1], start.round.playlist_url));
            law_counts_are_of_open_segments(before.downloader, before.round, events.last());
        }
        if flushed {
            law_ten_segments_are_flushed(before.downloader, before.round, events.last());
        }
    }
}

/// What a new downloader remembers after any rounds, the last of them at any point of its way:
/// every count of failures is at least one and at most four; no settled URI has a count, as long as
/// no playlist listed a URI twice; and unless a flush is under way fewer than ten segments wait to
/// be flushed, as long as no earlier round was dropped while it flushed.
#[verifier::spinoff_prover]
#[verifier::rlimit(60)]
pub proof fn law_memory_over_any_rounds(
    username: Seq<char>,
    listens_for_shutdown: bool,
    rounds: Seq<PlayedRound>,
    last: PlayedRound,
)
    requires
        is_session(DownloaderView::fresh(username, listens_for_shutdown), rounds.push(last)),
    ensures
        ({
            let new = DownloaderView::fresh(username, listens_for_shutdown);
            let end = round_end(after_rounds(new, rounds), last);
            &&& end.downloader == after_rounds(new, rounds.push(last))
            &&& counts_are_in_range(end.downloader)
            &&& all_bring_distinct_uris(rounds.push(last)) ==> no_settled_uri_is_counted(
                end.downloader,
            )
            &&& every_flush_succeeds(new, rounds) && end.round.phase != RoundPhase::Flush
                ==> end.downloader.since_flush < 10
        }),
    decreases rounds.len(),
{
    let new = DownloaderView::fresh(username, listens_for_shutdown);
    let all = rounds.push(last);
    let distinct = all_bring_distinct_uris(all);
    let flushed = every_flush_succeeds(new, rounds);
    let before = after_rounds(new, rounds);
    assert(all.drop_last() =~= rounds);
    if rounds.len() > 0 {
        assert(rounds.drop_last().push(rounds.last()) =~= rounds);
        if distinct {
            assert forall|i: int, j: int|
                0 <= i < rounds.len() && 0 <= j < rounds[i].events.len() implies brings_distinct_uris(
                #[trigger] rounds[i].events[j],
                rounds[i].playlist_url,
            ) by {
                assert(all[i] == rounds[i]);
                assert(brings_distinct_uris(all[i].events[j], all[i].playlist_url));
            }
        }
        law_memory_over_any_rounds(
            username,
            listens_for_shutdown,
            rounds.drop_last(),
            rounds.last(),
        );
    }
    assert forall|j: int| distinct && 0 <= j < last.events.len() implies brings_distinct_uris(
        #[trigger] last.events[j],
        last.playlist_url,
    ) by {
        assert(all[rounds.len() as int] == last);
        assert(brings_distinct_uris(
            all[rounds.len() as int].events[j],
            all[rounds.len() as int].playlist_url,
        ));
    }
    lemma_run_keeps_the_memory(round_start(before, last), last.events, distinct, flushed);
}

/// The event is a failure of this URI that is counted: neither a refusal nor one failure too many
/// in a row.
pub open spec fn is_counted(round: RoundView, event: RoundEventView, uri: Seq<char>) -> bool {
    event matches RoundEventView::SegmentFailed(message) && {
        &&& round.current().uri == uri
        &&& !says_forbidden(message)
        &&& round.consecutive_failed + 1 < MAX_CONSECUTIVE_FAILED_SEGMENTS
    }
}

/// How many counted failures of this URI are among the events of a round.
pub open spec fn failures_in_round(
    start: RoundState,
    events: Seq<RoundEventView>,
    uri: Seq<char>,
) -> nat
    decreases events.len(),
{
    if events.len() == 0 {
        0
    } else {
        let before = round_run(start, events.drop_last());
        failures_in_round(start, events.drop_last(), uri) + if is_counted(
            before.round,
            events.last(),
            uri,
        ) {
            1nat
        } else {
            0nat
        }
    }
}

/// How many counted failures of this URI are among the events of several rounds.
pub open spec fn failures_in_rounds(
    dl: DownloaderView,
    rounds: Seq<PlayedRound>,
    uri: Seq<char>,
) -> nat
    decreases rounds.len(),
{
    if rounds.len() == 0 {
        0
    } else {
        let before = after_rounds(dl, rounds.drop_last());
        failures_in_rounds(dl, rounds.drop_last(), uri) + failures_in_round(
            round_start(before, rounds.last()),
            rounds.last().events,
            uri,
        )
    }
}

/// A step changes the count of a URI that it does not settle only by counting a failure.
proof fn lemma_step_counts_failures(
    dl: DownloaderView,
    round: RoundView,
    event: RoundEventView,
    uri: Seq<char>,
)
    requires
        counts_are_in_range(dl),
        !round_step(dl, round, event).downloader.downloaded.contains(uri),
    ensures
        round_step(dl, round, event).downloader.failures(uri) == dl.failures(uri) + if is_counted(
            round,
            event,
            uri,
        ) {
            1nat
        } else {
            0nat
        },
{
}

/// The count of a URI that is not settled at the end of a run has grown by its counted failures.
#[verifier::spinoff_prover]
#[verifier::rlimit(60)]
proof fn lemma_run_counts_failures(
    start: RoundState,
    events: Seq<RoundEventView>,
    uri: Seq<char>,
)
    requires
        comes_in_turn(start, events),
        start.round.wf(),
        start.round.phase == RoundPhase::Response,
        counts_are_in_range(start.downloader),
        !round_run(start, events).downloader.downloaded.contains(uri),
    ensures
        round_run(start, events).downloader.failures(uri) == start.downloader.failures(uri)
            + failures_in_round(start, events, uri),
    decreases events.len(),
{
    if events.len() > 0 {
        let front = events.drop_last();
        let before = round_run(start, front);
        law_settled_stays_settled(before.downloader, before.round, events.last());
        lemma_run_counts_failures(start, front, uri);
        lemma_run_keeps_the_memory(start, front, false, false);
        lemma_step_counts_failures(before.downloader, before.round, events.last(), uri);
    }
}

/// Over any rounds, the count of a URI that is not settled is the number of its counted failures,
/// whatever else happened in between.
#[verifier::spinoff_prover]
#[verifier::rlimit(60)]
pub proof fn law_failures_are_counted(
    dl: DownloaderView,
    rounds: Seq<PlayedRound>,
    uri: Seq<char>,
)
    requires
        is_session(dl, rounds),
        counts_are_in_range(dl),
        !after_rounds(dl, rounds).downloaded.contains(uri),
    ensures
        after_rounds(dl, rounds).failures(uri) == dl.failures(uri) + failures_in_rounds(
            dl,
            rounds,
            uri,
        ),
        counts_are_in_range(after_rounds(dl, rounds)),
    decreases rounds.len(),
{
    if rounds.len() > 0 {
        let before = after_rounds(dl, rounds.drop_last());
        let start = round_start(before, rounds.last());
        law_settled_stays_settled_over_a_run(start, rounds.last().events);
        law_failures_are_counted(dl, rounds.drop_last(), uri);
        lemma_run_counts_failures(start, rounds.last().events, uri);
        lemma_run_keeps_the_memory(start, rounds.last().events, false, false);
    }
}

/// A segment is given up with its fifth counted failure and not before, over any rounds and
/// whatever else happened in between: with the fifth it is settled and its count is gone; with an
/// earlier one it stays unsettled and is counted.
#[verifier::spinoff_prover]
#[verifier::rlimit(60)]
pub proof fn law_five_failures_settle_a_segment(
    dl: DownloaderView,
    rounds: Seq<PlayedRound>,
    last: PlayedRound,
    uri: Seq<char>,
    event: RoundEventView,
)
    requires
        is_session(dl, rounds.push(last)),
        counts_are_in_range(dl),
        dl.failures(uri) == 0,
        !after_rounds(dl, rounds.push(last)).downloaded.contains(uri),
        is_counted(round_end(after_rounds(dl, rounds), last).round, event, uri),
    ensures
        ({
            let state = round_end(after_rounds(dl, rounds), last);
            let next = round_step(state.downloader, state.round, event).downloader;
            let failures = failures_in_rounds(dl, rounds.push(last), uri) + 1;
            &&& failures <= 5
            &&& if failures == 5 {
                next.downloaded.contains(uri) && next.failures(uri) == 0
            } else {
                !next.downloaded.contains(uri) && next.failures(uri) == failures
            }
        }),
{
    assert(rounds.push(last).drop_last() =~= rounds);
    law_failures_are_counted(dl, rounds.push(last), uri);
}

} // verus!
