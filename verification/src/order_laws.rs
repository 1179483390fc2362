//! Laws of the order in which segments are asked for: the order of the playlist, over any rounds.
use crate::downloader::{
    addressed, awaits, listed_uris, plan, round_step, unseen, DownloaderView, RoundActionView,
    RoundErrorView, RoundEventView, RoundPhase, RoundState, RoundView, SegmentView,
};
use crate::links::parsed_url;
use crate::output_laws::law_playlist_is_read_once;
use crate::playlist::parsed_playlist;
use crate::round_laws::{comes_in_turn, round_end, round_run, round_start, PlayedRound};
use vstd::prelude::*;

verus! {

/// What a playlist with this text lists.
pub open spec fn playlist_lists(content: Seq<char>, playlist_url: Seq<char>) -> Result<
    Seq<Seq<char>>,
    RoundErrorView,
> {
    listed_uris(parsed_playlist(vstd::utf8::encode_utf8(content)), parsed_url(playlist_url))
}

/// The segment at `i` is listed at `p`, and what is listed before that is settled or comes before
/// the segment.
spec fn has_place(
    settled: Set<Seq<char>>,
    uris: Seq<Seq<char>>,
    kept: Seq<Seq<char>>,
    i: int,
    p: int,
) -> bool {
    &&& 0 <= p < uris.len()
    &&& uris[p] == kept[i]
    &&& forall|k: int|
        0 <= k < p ==> settled.contains(#[trigger] uris[k]) || exists|j: int|
            0 <= j < i && kept[j] == uris[k]
}

spec fn has_some_place(
    settled: Set<Seq<char>>,
    uris: Seq<Seq<char>>,
    kept: Seq<Seq<char>>,
    i: int,
) -> bool {
    exists|p: int| has_place(settled, uris, kept, i, p)
}

proof fn lemma_unseen_keeps_places(uris: Seq<Seq<char>>, settled: Set<Seq<char>>, i: int)
    requires
        0 <= i < unseen(uris, settled).len(),
    ensures
        has_some_place(settled, uris, unseen(uris, settled), i),
    decreases uris.len(),
{
    reveal(Seq::filter);
    let keep = |uri: Seq<char>| !settled.contains(uri);
    let front = uris.drop_last();
    let kept = unseen(uris, settled);
    let earlier = unseen(front, settled);
    if i < earlier.len() {
        lemma_unseen_keeps_places(front, settled, i);
        let p = choose|p: int| has_place(settled, front, earlier, i, p);
        assert forall|k: int| 0 <= k < p implies settled.contains(#[trigger] uris[k]) || exists|
            j: int,
        |
            0 <= j < i && kept[j] == uris[k] by {
            assert(front[k] == uris[k]);
            if !settled.contains(front[k]) {
                let j = choose|j: int| 0 <= j < i && earlier[j] == front[k];
                assert(kept[j] == uris[k]);
            }
        }
        assert(has_place(settled, uris, kept, i, p));
    } else {
        let p = uris.len() - 1;
        assert forall|k: int| 0 <= k < p implies settled.contains(#[trigger] uris[k]) || exists|
            j: int,
        |
            0 <= j < i && kept[j] == uris[k] by {
            if !settled.contains(uris[k]) {
                assert(front[k] == uris[k]);
                assert(keep(front[k]));
                front.lemma_filter_contains(keep, k);
                let j = choose|j: int| 0 <= j < earlier.len() && earlier[j] == front[k];
                assert(kept[j] == uris[k]);
            }
        }
        assert(has_place(settled, uris, kept, i, p));
    }
}

/// The URIs of segments.
spec fn uris_of(segments: Seq<SegmentView>) -> Seq<Seq<char>> {
    segments.map_values(|segment: SegmentView| segment.uri)
}

spec fn works_on_segments(phase: RoundPhase) -> bool {
    phase == RoundPhase::Segment || phase == RoundPhase::SegmentWrite || phase == RoundPhase::Flush
}

/// While the round works on segments they are those of its playlist, in order, and what lies behind
/// it is settled.
spec fn is_in_order(dl: DownloaderView, round: RoundView) -> bool {
    works_on_segments(round.phase) ==> {
        &&& playlist_lists(round.content, round.playlist_url) is Ok
        &&& 0 <= round.next < round.segments.len()
        &&& forall|i: int|
            0 <= i < round.next ==> dl.downloaded.contains((#[trigger] round.segments[i]).uri)
        &&& forall|i: int|
            0 <= i < round.segments.len() ==> #[trigger] has_some_place(
                dl.downloaded,
                playlist_lists(round.content, round.playlist_url)->Ok_0,
                uris_of(round.segments),
                i,
            )
    }
}

proof fn lemma_plan_is_in_order(dl: DownloaderView, round: RoundView)
    requires
        !works_on_segments(round.phase),
    ensures
        is_in_order(plan(dl, round).downloader, plan(dl, round).round),
{
    if let Ok(uris) = playlist_lists(round.content, round.playlist_url) {
        let kept = unseen(uris, dl.downloaded);
        let segments = addressed(kept, round.playlist_url);
        assert(uris_of(segments) =~= kept);
        assert forall|i: int| 0 <= i < segments.len() implies #[trigger] has_some_place(
            dl.downloaded,
            uris,
            uris_of(segments),
            i,
        ) by {
            lemma_unseen_keeps_places(uris, dl.downloaded, i);
        }
    }
}

/// More settled URIs do not spoil a place.
proof fn lemma_places_stay(
    settled: Set<Seq<char>>,
    more: Set<Seq<char>>,
    uris: Seq<Seq<char>>,
    kept: Seq<Seq<char>>,
    i: int,
)
    requires
        settled.subset_of(more),
        has_some_place(settled, uris, kept, i),
    ensures
        has_some_place(more, uris, kept, i),
{
    let p = choose|p: int| has_place(settled, uris, kept, i, p);
    assert(has_place(more, uris, kept, i, p));
}

/// What a step on segments does, as far as the order goes.
proof fn lemma_segment_step(dl: DownloaderView, round: RoundView, event: RoundEventView)
    requires
        works_on_segments(round.phase),
        awaits(round.phase, event),
        0 <= round.next < round.segments.len(),
    ensures
        ({
            let next = round_step(dl, round, event);
            works_on_segments(next.round.phase) ==> {
                &&& next.round.content == round.content
                &&& next.round.playlist_url == round.playlist_url
                &&& next.round.segments == round.segments
                &&& dl.downloaded.subset_of(next.downloader.downloaded)
                &&& next.round.next == round.next || (next.round.next == round.next + 1
                    && next.round.next < round.segments.len()
                    && next.downloader.downloaded.contains(round.segments[round.next].uri))
            }
        }),
{
}

proof fn lemma_step_is_in_order(dl: DownloaderView, round: RoundView, event: RoundEventView)
    requires
        awaits(round.phase, event),
        is_in_order(dl, round),
    ensures
        is_in_order(round_step(dl, round, event).downloader, round_step(dl, round, event).round),
{
    let next = round_step(dl, round, event);
    if works_on_segments(round.phase) {
        lemma_segment_step(dl, round, event);
        if works_on_segments(next.round.phase) {
            let uris = playlist_lists(round.content, round.playlist_url)->Ok_0;
            let kept = uris_of(round.segments);
            assert forall|i: int| 0 <= i < next.round.segments.len() implies #[trigger] has_some_place(
                next.downloader.downloaded,
                uris,
                uris_of(next.round.segments),
                i,
            ) by {
                assert(has_some_place(dl.downloaded, uris, kept, i));
                lemma_places_stay(dl.downloaded, next.downloader.downloaded, uris, kept, i);
            }
        }
    } else {
        match event {
            RoundEventView::Content(content) => {
                lemma_plan_is_in_order(
                    dl,
                    RoundView {
                        content,
                        target_duration: crate::playlist::playlist_target_duration(content) as u64,
                        ..round
                    },
                );
            },
            RoundEventView::InitFailed => {
                lemma_plan_is_in_order(dl, RoundView { init_failed: true, ..round });
            },
            RoundEventView::InitWritten => {
                lemma_plan_is_in_order(
                    DownloaderView { init_segment_downloaded: true, ..dl },
                    RoundView { init_just_downloaded: true, ..round },
                );
            },
            _ => {},
        }
    }
}

proof fn lemma_run_is_in_order(start: RoundState, events: Seq<RoundEventView>)
    requires
        comes_in_turn(start, events),
        start.round.phase == RoundPhase::Response,
        start.action == RoundActionView::ReadContent,
    ensures
        is_in_order(round_run(start, events).downloader, round_run(start, events).round),
        has_read(round_run(start, events).round.phase) ==> events.len() > 1 && events[1]
            == RoundEventView::Content(round_run(start, events).round.content),
        round_run(start, events).round.playlist_url == start.round.playlist_url,
        round_run(start, events).action is FetchSegment ==> round_run(start, events).round.phase
            == RoundPhase::Segment && round_run(start, events).action
            == RoundActionView::FetchSegment(round_run(start, events).round.current().address),
    decreases events.len(),
{
    if events.len() > 0 {
        let before = round_run(start, events.drop_last());
        lemma_run_is_in_order(start, events.drop_last());
        lemma_step_is_in_order(before.downloader, before.round, events.last());
        lemma_fetches_the_current(before.downloader, before.round, events.last());
        lemma_text_is_kept(before.downloader, before.round, events.last());
        let front = events.drop_last();
        if front.len() > 0 {
            law_playlist_is_read_once(start, front);
        }
        if front.len() > 1 {
            assert(front[1] == events[1]);
        }
    }
}

/// A round in this phase has read its playlist and is not over.
spec fn has_read(phase: RoundPhase) -> bool {
    works_on_segments(phase) || phase == RoundPhase::Init || phase == RoundPhase::InitWrite
}

proof fn lemma_text_is_kept(dl: DownloaderView, round: RoundView, event: RoundEventView)
    requires
        awaits(round.phase, event),
    ensures
        ({
            let next = round_step(dl, round, event);
            has_read(next.round.phase) ==> if round.phase == RoundPhase::Content {
                event == RoundEventView::Content(next.round.content)
            } else {
                has_read(round.phase) && next.round.content == round.content
            }
        }),
{
}

proof fn lemma_fetches_the_current(dl: DownloaderView, round: RoundView, event: RoundEventView)
    ensures
        ({
            let next = round_step(dl, round, event);
            &&& next.round.playlist_url == round.playlist_url
            &&& next.action is FetchSegment ==> next.round.phase == RoundPhase::Segment && next.action
                == RoundActionView::FetchSegment(next.round.segments[next.round.next].address)
        }),
{
}

/// A segment is asked for only when every segment that the playlist lists before it is settled, in
/// whatever round and whatever happened before: so none overtakes another, and the recording is in
/// the order of the playlist. What is asked for is the address of the round's current segment.
pub proof fn law_no_segment_overtakes_another(dl: DownloaderView, played: PlayedRound)
    requires
        comes_in_turn(round_start(dl, played), played.events),
        round_end(dl, played).action is FetchSegment,
    ensures
        ({
            let end = round_end(dl, played);
            let segment = end.round.segments[end.round.next];
            &&& end.round.phase == RoundPhase::Segment
            &&& end.action == RoundActionView::FetchSegment(segment.address)
            &&& played.events.len() > 1
            &&& played.events[1] matches RoundEventView::Content(content) && playlist_lists(
                content,
                played.playlist_url,
            ) matches Ok(uris) && exists|p: int|
                0 <= p < uris.len() && #[trigger] uris[p] == segment.uri && forall|k: int|
                    0 <= k < p ==> end.downloader.downloaded.contains(#[trigger] uris[k])
        }),
{
    let start = round_start(dl, played);
    let end = round_end(dl, played);
    lemma_run_is_in_order(start, played.events);
    let uris = playlist_lists(end.round.content, end.round.playlist_url)->Ok_0;
    let kept = uris_of(end.round.segments);
    let i = end.round.next;
    assert(kept[i] == end.round.segments[i].uri);
    assert(has_some_place(end.downloader.downloaded, uris, kept, i));
    let p = choose|p: int| has_place(end.downloader.downloaded, uris, kept, i, p);
    assert(has_place(end.downloader.downloaded, uris, kept, i, p));
    assert forall|k: int| 0 <= k < p implies end.downloader.downloaded.contains(
        #[trigger] uris[k],
    ) by {
        if !end.downloader.downloaded.contains(uris[k]) {
            let j = choose|j: int| 0 <= j < i && kept[j] == uris[k];
            assert(kept[j] == end.round.segments[j].uri);
            assert(end.downloader.downloaded.contains(end.round.segments[j].uri));
        }
    }
    assert(uris[p] == end.round.segments[i].uri);
}

} // verus!
