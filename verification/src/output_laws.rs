//! Laws of what goes through a round: the bytes that it fetches and writes, and the text of the
//! playlist that it reads.
use crate::downloader::{
    awaits, is_success, round_step, DownloaderView, RoundActionView, RoundEventView, RoundPhase,
    RoundState, RoundView,
};
use crate::playlist::{computes, is_processed};
use crate::round_laws::{
    after_rounds, comes_in_turn, is_session, round_end, round_run, round_start, PlayedRound,
};
use vstd::prelude::*;

verus! {

/// What a round has written to the output: what each finished write was asked to write, in order.
pub open spec fn written(start: RoundState, events: Seq<RoundEventView>) -> Seq<u8>
    decreases events.len(),
{
    if events.len() == 0 {
        seq![]
    } else {
        let before = written(start, events.drop_last());
        match (events.last(), round_run(start, events.drop_last()).action) {
            (RoundEventView::InitWritten, RoundActionView::WriteInit(data)) => before + data,
            (RoundEventView::SegmentWritten, RoundActionView::WriteSegment(data)) => before + data,
            _ => before,
        }
    }
}

/// The initialization segment that was fetched in a round; nothing where none was.
pub open spec fn init_data(events: Seq<RoundEventView>) -> Seq<u8>
    decreases events.len(),
{
    if events.len() == 0 {
        seq![]
    } else {
        match events.last() {
            RoundEventView::InitFetched(data) => data,
            _ => init_data(events.drop_last()),
        }
    }
}

/// The segments that were fetched in a round, one behind the other.
pub open spec fn segment_data(events: Seq<RoundEventView>) -> Seq<u8>
    decreases events.len(),
{
    if events.len() == 0 {
        seq![]
    } else {
        match events.last() {
            RoundEventView::SegmentFetched(data) => segment_data(events.drop_last()) + data,
            _ => segment_data(events.drop_last()),
        }
    }
}

/// What a round has been asked to write and has not written yet.
pub open spec fn pending_data(state: RoundState) -> Seq<u8> {
    match state.action {
        RoundActionView::WriteInit(data) => data,
        RoundActionView::WriteSegment(data) => data,
        _ => seq![],
    }
}

/// What each step does with data: a fetched segment is what the next write is asked to write, and
/// nothing else is written.
proof fn lemma_step_hands_data_on(dl: DownloaderView, round: RoundView, event: RoundEventView)
    requires
        awaits(round.phase, event),
    ensures
        ({
            let next = round_step(dl, round, event);
            let phase = next.round.phase;
            &&& phase == RoundPhase::InitWrite <==> next.action is WriteInit
            &&& phase == RoundPhase::SegmentWrite <==> next.action is WriteSegment
            &&& match event {
                RoundEventView::InitFetched(data) => pending_data(next) == data && phase
                    == RoundPhase::InitWrite,
                RoundEventView::SegmentFetched(data) => pending_data(next) == data,
                _ => pending_data(next) == Seq::<u8>::empty(),
            }
            &&& is_before_segments(phase) ==> is_before_segments(round.phase)
            &&& is_before_init(phase) ==> is_before_init(round.phase) && !(event is InitFetched)
        }),
{
    if let RoundEventView::SegmentFetched(data) = event {
        if data.len() == 0 {
            assert(data =~= Seq::<u8>::empty());
        }
    }
}

/// A round in this phase has not fetched an initialization segment.
spec fn is_before_init(phase: RoundPhase) -> bool {
    phase == RoundPhase::Response || phase == RoundPhase::Content || phase == RoundPhase::Init
}

/// A round in this phase has not fetched a segment.
spec fn is_before_segments(phase: RoundPhase) -> bool {
    is_before_init(phase) || phase == RoundPhase::InitWrite
}

/// What holds of the output after each event of a round.
proof fn lemma_output(start: RoundState, events: Seq<RoundEventView>)
    requires
        comes_in_turn(start, events),
        start.round.phase == RoundPhase::Response,
        start.action == RoundActionView::ReadContent,
    ensures
        ({
            let end = round_run(start, events);
            let phase = end.round.phase;
            &&& written(start, events) + pending_data(end) == init_data(events) + segment_data(events)
            &&& phase == RoundPhase::InitWrite <==> end.action is WriteInit
            &&& phase == RoundPhase::SegmentWrite <==> end.action is WriteSegment
            &&& is_before_init(phase) ==> init_data(events).len() == 0
            &&& is_before_segments(phase) ==> segment_data(events).len() == 0
        }),
    decreases events.len(),
{
    let end = round_run(start, events);
    if events.len() > 0 {
        let front = events.drop_last();
        let before = round_run(start, front);
        lemma_output(start, front);
        lemma_step_hands_data_on(before.downloader, before.round, events.last());
    }
    assert(written(start, events) + pending_data(end) =~= init_data(events) + segment_data(events));
}

/// The output of a round is the initialization segment, where one was fetched, and behind it the
/// fetched segments in their order, byte for byte; while a write is under way, what is being
/// written is still to come. A write is under way exactly in the phases that wait for one.
pub proof fn law_output_is_what_was_fetched(dl: DownloaderView, played: PlayedRound)
    requires
        comes_in_turn(round_start(dl, played), played.events),
    ensures
        ({
            let end = round_end(dl, played);
            &&& written(round_start(dl, played), played.events) + pending_data(end) == init_data(
                played.events,
            ) + segment_data(played.events)
            &&& end.round.phase == RoundPhase::InitWrite <==> end.action is WriteInit
            &&& end.round.phase == RoundPhase::SegmentWrite <==> end.action is WriteSegment
        }),
{
    lemma_output(round_start(dl, played), played.events);
}

/// What several rounds have written, one behind the other.
pub open spec fn written_in_rounds(dl: DownloaderView, rounds: Seq<PlayedRound>) -> Seq<u8>
    decreases rounds.len(),
{
    if rounds.len() == 0 {
        seq![]
    } else {
        let before = after_rounds(dl, rounds.drop_last());
        written_in_rounds(dl, rounds.drop_last()) + written(
            round_start(before, rounds.last()),
            rounds.last().events,
        )
    }
}

/// What several rounds have fetched, one behind the other: of each round the initialization
/// segment and the segments.
pub open spec fn fetched_in_rounds(rounds: Seq<PlayedRound>) -> Seq<u8>
    decreases rounds.len(),
{
    if rounds.len() == 0 {
        seq![]
    } else {
        fetched_in_rounds(rounds.drop_last()) + init_data(rounds.last().events) + segment_data(
            rounds.last().events,
        )
    }
}

/// No round is dropped while it writes.
pub open spec fn every_write_succeeds(dl: DownloaderView, rounds: Seq<PlayedRound>) -> bool
    decreases rounds.len(),
{
    rounds.len() > 0 ==> {
        let phase = round_end(
            after_rounds(dl, rounds.drop_last()),
            rounds.last(),
        ).round.phase;
        &&& every_write_succeeds(dl, rounds.drop_last())
        &&& phase != RoundPhase::InitWrite
        &&& phase != RoundPhase::SegmentWrite
    }
}

/// The output of any rounds is what they fetched, byte for byte and in order, as long as no round
/// was dropped while it wrote.
pub proof fn law_output_over_any_rounds(dl: DownloaderView, rounds: Seq<PlayedRound>)
    requires
        is_session(dl, rounds),
        every_write_succeeds(dl, rounds),
    ensures
        written_in_rounds(dl, rounds) == fetched_in_rounds(rounds),
    decreases rounds.len(),
{
    if rounds.len() > 0 {
        let before = after_rounds(dl, rounds.drop_last());
        law_output_over_any_rounds(dl, rounds.drop_last());
        lemma_finished_round_output(before, rounds.last());
        assert(written_in_rounds(dl, rounds) =~= fetched_in_rounds(rounds));
    }
}

proof fn lemma_finished_round_output(dl: DownloaderView, played: PlayedRound)
    requires
        comes_in_turn(round_start(dl, played), played.events),
        round_end(dl, played).round.phase != RoundPhase::InitWrite,
        round_end(dl, played).round.phase != RoundPhase::SegmentWrite,
    ensures
        written(round_start(dl, played), played.events) == init_data(played.events) + segment_data(
            played.events,
        ),
{
    law_output_is_what_was_fetched(dl, played);
    let all = written(round_start(dl, played), played.events);
    assert(all + Seq::<u8>::empty() =~= all);
}

/// The event that a round gets where a processor stands between the server and the round.
pub open spec fn processed_event(
    event: RoundEventView,
    g: spec_fn(Seq<char>) -> Seq<char>,
) -> RoundEventView {
    match event {
        RoundEventView::Content(body) => RoundEventView::Content(g(body)),
        _ => event,
    }
}

/// A round with a processor after several events: a step on the server's text is one on what the
/// processor made of it.
pub open spec fn processed_run(
    start: RoundState,
    events: Seq<RoundEventView>,
    g: spec_fn(Seq<char>) -> Seq<char>,
) -> RoundState
    decreases events.len(),
{
    if events.len() == 0 {
        start
    } else {
        let before = processed_run(start, events.drop_last(), g);
        round_step(before.downloader, before.round, processed_event(events.last(), g))
    }
}

/// A step on whatever a processor can make of the server's text is the step on the text that it
/// computes.
pub proof fn law_processed_playlist_is_the_computed_one<F: Fn(&str) -> String>(
    dl: DownloaderView,
    round: RoundView,
    f: &F,
    g: spec_fn(Seq<char>) -> Seq<char>,
    body: Seq<char>,
    processed: String,
)
    requires
        computes(*f, g),
        is_processed(Some(f), body, processed),
    ensures
        round_step(dl, round, RoundEventView::Content(processed@)) == round_step(
            dl,
            round,
            processed_event(RoundEventView::Content(body), g),
        ),
{
}

/// A round with a processor does what a round without one does where the server sends the processed
/// text: the same requests, the same writes, the same memory and the same outcome.
pub proof fn law_processing_comes_first(
    start: RoundState,
    events: Seq<RoundEventView>,
    g: spec_fn(Seq<char>) -> Seq<char>,
)
    ensures
        ({
            let sent = events.map_values(|event: RoundEventView| processed_event(event, g));
            &&& processed_run(start, events, g) == round_run(start, sent)
            &&& init_data(sent) == init_data(events)
            &&& segment_data(sent) == segment_data(events)
        }),
    decreases events.len(),
{
    let change = |event: RoundEventView| processed_event(event, g);
    let sent = events.map_values(change);
    if events.len() > 0 {
        law_processing_comes_first(start, events.drop_last(), g);
        assert(sent.drop_last() =~= events.drop_last().map_values(change));
        assert(sent.last() == processed_event(events.last(), g));
    }
}

/// In how many events a round gets the text of the playlist.
pub open spec fn texts_read(events: Seq<RoundEventView>) -> nat
    decreases events.len(),
{
    if events.len() == 0 {
        0
    } else {
        texts_read(events.drop_last()) + if events.last() is Content {
            1nat
        } else {
            0nat
        }
    }
}

/// A round begins with the server's answer. After a success the text of the playlist is asked for
/// and taken next, and only once; after any other answer the round is over and no text is taken.
pub proof fn law_playlist_is_read_once(start: RoundState, events: Seq<RoundEventView>)
    requires
        comes_in_turn(start, events),
        start.round.phase == RoundPhase::Response,
        events.len() > 0,
    ensures
        events[0] matches RoundEventView::Response(status) && if is_success(status) {
            &&& events.len() == 1 ==> round_run(start, events).action == RoundActionView::ReadContent
                && round_run(start, events).round.phase == RoundPhase::Content && texts_read(events)
                == 0
            &&& events.len() > 1 ==> events[1] is Content && texts_read(events) == 1 && round_run(
                start,
                events,
            ).round.phase != RoundPhase::Response && round_run(start, events).round.phase
                != RoundPhase::Content
        } else {
            events.len() == 1 && texts_read(events) == 0 && round_run(start, events).round.phase
                == RoundPhase::Over
        },
    decreases events.len(),
{
    let front = events.drop_last();
    if events.len() == 1 {
        assert(front.len() == 0);
        assert(round_run(start, front) == start);
        assert(texts_read(front) == 0);
        assert(events.last() == events[0]);
    } else {
        law_playlist_is_read_once(start, front);
        assert(front[0] == events[0]);
        if events.len() > 2 {
            assert(front[1] == events[1]);
        }
    }
}

} // verus!
