//! Laws of recording: what holds of a recording over many events.
use crate::downloader::{
    round_step, DownloaderView, RoundActionView, RoundEventView, RoundOutcome, RoundView,
    ShutdownPoll, WaitEnd,
};
use crate::recording::{
    close_part, goes_on, recording_awaits, recording_step, starts_next_part, wait_seconds,
    wait_stops, RecordingAction, RecordingEvent, RecordingPhase, RecordingState, RecordingView,
    SessionEndReason, MAX_PART_SECS,
};
use crate::segment::says_forbidden;
use vstd::prelude::*;

verus! {

/// The round brought content.
pub open spec fn is_content(event: RecordingEvent) -> bool {
    event matches RecordingEvent::RoundFinished(outcome, _) && outcome
        == RoundOutcome::DownloadedContent
}

/// The round found nothing new in the playlist.
pub open spec fn is_empty_poll(event: RecordingEvent) -> bool {
    event matches RecordingEvent::RoundFinished(outcome, _) && outcome
        == RoundOutcome::NoNewSegments
}

/// The round brought nothing new, or failed.
pub open spec fn is_fruitless(event: RecordingEvent) -> bool {
    is_empty_poll(event) || event == RecordingEvent::RoundFailed
}

/// The round ended with a segment to be tried again.
pub open spec fn is_pending(event: RecordingEvent) -> bool {
    event matches RecordingEvent::RoundFinished(outcome, _) && outcome == RoundOutcome::PendingRetry
}

/// The round is one that by itself does not end a part.
pub open spec fn is_ordinary(event: RecordingEvent) -> bool {
    is_content(event) || is_fruitless(event) || is_pending(event)
}

/// A poll: how its round ended, how the wait behind it ended, if there was one, and for how many
/// seconds the part had been recorded by then.
pub struct Poll {
    pub round: RecordingEvent,
    pub wait: WaitEnd,
    pub elapsed: u64,
}

/// Neither the shutdown channel nor the clock interferes.
pub open spec fn is_undisturbed(dl: DownloaderView, poll: Poll) -> bool {
    !wait_stops(dl, poll.wait) && poll.elapsed < MAX_PART_SECS
}

/// A recording after a poll: about to do the next round, or closing its part. Where the part is
/// being closed already, there are no more polls.
pub open spec fn next_poll(dl: DownloaderView, rec: RecordingView, poll: Poll) -> RecordingView {
    if rec.phase != RecordingPhase::Round {
        rec
    } else {
        let done = recording_step(dl, rec, poll.round).recording;
        let rested = if done.phase == RecordingPhase::Wait {
            recording_step(dl, done, RecordingEvent::WaitOver(poll.wait)).recording
        } else {
            done
        };
        if rested.phase == RecordingPhase::Clock {
            recording_step(dl, rested, RecordingEvent::Clock(poll.elapsed)).recording
        } else {
            rested
        }
    }
}

/// A recording after several polls.
pub open spec fn after_polls(
    dl: DownloaderView,
    rec: RecordingView,
    polls: Seq<Poll>,
) -> RecordingView
    decreases polls.len(),
{
    if polls.len() == 0 {
        rec
    } else {
        next_poll(dl, after_polls(dl, rec, polls.drop_last()), polls.last())
    }
}

/// The rounds of the polls do not by themselves end a part, and nothing interferes with the polls.
pub open spec fn all_ordinary(dl: DownloaderView, polls: Seq<Poll>) -> bool {
    forall|i: int|
        0 <= i < polls.len() ==> is_undisturbed(dl, #[trigger] polls[i]) && is_ordinary(
            polls[i].round,
        )
}

/// How many rounds were fruitless since the last one that brought content; `before` of them came
/// before these polls. Rounds that ended with a segment to be tried again change nothing.
pub open spec fn fruitless_count(before: nat, polls: Seq<Poll>) -> nat
    decreases polls.len(),
{
    if polls.len() == 0 {
        before
    } else if is_content(polls.last().round) {
        0
    } else if is_fruitless(polls.last().round) {
        fruitless_count(before, polls.drop_last()) + 1
    } else {
        fruitless_count(before, polls.drop_last())
    }
}

/// How many rounds ended with a segment to be tried again since the last one that brought content
/// or found nothing new; `before` of them came before these polls. Failed rounds change nothing.
pub open spec fn pending_count(before: nat, polls: Seq<Poll>) -> nat
    decreases polls.len(),
{
    if polls.len() == 0 {
        before
    } else if is_content(polls.last().round) || is_empty_poll(polls.last().round) {
        0
    } else if is_pending(polls.last().round) {
        pending_count(before, polls.drop_last()) + 1
    } else {
        pending_count(before, polls.drop_last())
    }
}

/// At no point of the polls has either count reached its limit.
pub open spec fn counts_stay_low(rec: RecordingView, polls: Seq<Poll>) -> bool {
    forall|i: int|
        0 <= i <= polls.len() ==> fruitless_count(rec.empty_polls, #[trigger] polls.take(i)) < 10
            && pending_count(rec.pending_retries, polls.take(i)) < 20
}

proof fn lemma_counts_stayed_low(rec: RecordingView, polls: Seq<Poll>)
    requires
        polls.len() > 0,
    ensures
        counts_stay_low(rec, polls) <==> {
            &&& counts_stay_low(rec, polls.drop_last())
            &&& fruitless_count(rec.empty_polls, polls) < 10
            &&& pending_count(rec.pending_retries, polls) < 20
        },
{
    let front = polls.drop_last();
    assert(polls.take(polls.len() as int) =~= polls);
    assert forall|i: int| 0 <= i <= front.len() implies #[trigger] front.take(i) == polls.take(
        i,
    ) by {
        assert(front.take(i) =~= polls.take(i));
    }
    assert forall|i: int| 0 <= i < polls.len() implies #[trigger] polls.take(i) == front.take(
        i,
    ) by {
        assert(front.take(i) =~= polls.take(i));
    }
}

/// Over any polls whose rounds do not by themselves end a part, a part goes on exactly as long as
/// neither count reaches its limit: that of the fruitless rounds since content, and that of the
/// rounds to be tried again since content or an empty poll. While it goes on the recording's two
/// counts are these, and the part has content if it had or if a round brought some. A part begins
/// with both counts at zero.
pub proof fn law_polls_are_counted(dl: DownloaderView, rec: RecordingView, polls: Seq<Poll>)
    requires
        rec.wf(),
        rec.phase == RecordingPhase::Round,
        all_ordinary(dl, polls),
    ensures
        ({
            let after = after_polls(dl, rec, polls);
            &&& after.phase == RecordingPhase::Round <==> counts_stay_low(rec, polls)
            &&& counts_stay_low(rec, polls) ==> {
                &&& after.empty_polls == fruitless_count(rec.empty_polls, polls)
                &&& after.pending_retries == pending_count(rec.pending_retries, polls)
                &&& after.has_content == (rec.has_content || exists|i: int|
                    0 <= i < polls.len() && is_content((#[trigger] polls[i]).round))
            }
            &&& after.part_index == rec.part_index
        }),
    decreases polls.len(),
{
    if polls.len() == 0 {
        assert forall|i: int| 0 <= i <= polls.len() implies #[trigger] polls.take(i) == polls by {
            assert(polls.take(i) =~= polls);
        }
        assert(counts_stay_low(rec, polls));
    } else {
        let front = polls.drop_last();
        let last = polls[polls.len() - 1];
        assert forall|i: int| 0 <= i < front.len() implies is_undisturbed(dl, #[trigger] front[i])
            && is_ordinary(front[i].round) by {
            assert(front[i] == polls[i]);
        }
        assert(is_undisturbed(dl, last) && is_ordinary(last.round));
        law_polls_are_counted(dl, rec, front);
        lemma_counts_stayed_low(rec, polls);
        let before = after_polls(dl, rec, front);
        assert(after_polls(dl, rec, polls) == next_poll(dl, before, last));
        if before.phase == RecordingPhase::Round {
            let after = after_polls(dl, rec, polls);
            if exists|i: int| 0 <= i < front.len() && is_content((#[trigger] front[i]).round) {
                let i = choose|i: int| 0 <= i < front.len() && is_content((#[trigger] front[i]).round);
                assert(is_content(polls[i].round));
            }
            assert forall|i: int| 0 <= i < polls.len() && is_content((#[trigger] polls[i]).round)
                implies i == polls.len() - 1 || is_content(front[i].round) by {
                if i < front.len() {
                    assert(front[i] == polls[i]);
                }
            }
        }
    }
}

/// The tenth fruitless round since the part began or since its last content ends the stream,
/// whatever rounds to be tried again came in between, and no round that does not by itself end a
/// part ends the stream otherwise.
pub proof fn law_ten_fruitless_rounds_end_the_stream(
    dl: DownloaderView,
    rec: RecordingView,
    polls: Seq<Poll>,
    round: RecordingEvent,
)
    requires
        rec.wf(),
        rec.phase == RecordingPhase::Round,
        all_ordinary(dl, polls),
        counts_stay_low(rec, polls),
        is_ordinary(round),
    ensures
        ({
            let next = recording_step(dl, after_polls(dl, rec, polls), round);
            let ends = is_fruitless(round) && fruitless_count(rec.empty_polls, polls) == 9;
            &&& ends <==> next.recording.phase == RecordingPhase::Flush(
                SessionEndReason::StreamEnded,
            )
            &&& ends ==> next.action == RecordingAction::Flush
        }),
{
    law_polls_are_counted(dl, rec, polls);
    assert(polls.take(polls.len() as int) =~= polls);
}

/// The twentieth round that ends with a segment to be tried again since the part began or since its
/// last content or empty poll closes the part, whatever failed rounds came in between, and the
/// recording goes on with another part. No round that does not by itself end a part closes the part
/// so otherwise.
pub proof fn law_twenty_pending_rounds_close_the_part(
    dl: DownloaderView,
    rec: RecordingView,
    polls: Seq<Poll>,
    round: RecordingEvent,
)
    requires
        rec.wf(),
        rec.phase == RecordingPhase::Round,
        all_ordinary(dl, polls),
        counts_stay_low(rec, polls),
        is_ordinary(round),
    ensures
        ({
            let next = recording_step(dl, after_polls(dl, rec, polls), round);
            let closes = is_pending(round) && pending_count(rec.pending_retries, polls) == 19;
            &&& closes <==> next.recording.phase == RecordingPhase::Flush(
                SessionEndReason::FatalSegmentError,
            )
            &&& closes ==> next.action == RecordingAction::Flush
            &&& goes_on(SessionEndReason::FatalSegmentError)
        }),
{
    law_polls_are_counted(dl, rec, polls);
    assert(polls.take(polls.len() as int) =~= polls);
}

/// A round that brings content starts both counts anew.
pub proof fn law_content_starts_the_counts_anew(
    dl: DownloaderView,
    rec: RecordingView,
    target_duration: u64,
)
    ensures
        ({
            let next = recording_step(
                dl,
                rec,
                RecordingEvent::RoundFinished(RoundOutcome::DownloadedContent, target_duration),
            );
            &&& next.recording.has_content
            &&& next.recording.empty_polls == 0
            &&& next.recording.pending_retries == 0
            &&& next.action == RecordingAction::CheckClock
        }),
{
}

/// Closing a part, from the moment it stops: flushing, converting where there is content, and
/// removing the temporary file.
pub open spec fn closed_part(
    dl: DownloaderView,
    rec: RecordingView,
    reason: SessionEndReason,
    converted: bool,
) -> RecordingState {
    let flushed = recording_step(
        dl,
        close_part(dl, rec, reason).recording,
        RecordingEvent::Flushed,
    );
    if rec.has_content {
        let done = recording_step(dl, flushed.recording, RecordingEvent::Converted(converted));
        if converted {
            recording_step(dl, done.recording, RecordingEvent::Removed)
        } else {
            done
        }
    } else {
        recording_step(dl, flushed.recording, RecordingEvent::Removed)
    }
}

/// Whatever stops a part, its file is flushed, what was recorded is converted, and only then does
/// the recording return or go on. A room that asks for a ticket is reported after that; a stream
/// that ended and a shutdown return without an error.
pub proof fn law_every_part_is_closed(
    dl: DownloaderView,
    rec: RecordingView,
    reason: SessionEndReason,
    converted: bool,
)
    ensures
        close_part(dl, rec, reason).action == RecordingAction::Flush,
        ({
            let flushed = recording_step(
                dl,
                close_part(dl, rec, reason).recording,
                RecordingEvent::Flushed,
            );
            flushed.action == if rec.has_content {
                RecordingAction::Convert
            } else {
                RecordingAction::RemoveTemp
            }
        }),
        closed_part(dl, rec, reason, converted).action == match reason {
            SessionEndReason::StreamEnded => RecordingAction::ReturnOk,
            SessionEndReason::Shutdown => RecordingAction::ReturnOk,
            SessionEndReason::TicketedRoom => RecordingAction::ReturnTicketed,
            SessionEndReason::MaxDurationReached => RecordingAction::OpenPart,
            SessionEndReason::FatalSegmentError => RecordingAction::OpenPart,
        },
{
}

/// A room that refuses its playlist, or a segment, is reported: the round ends as that of a room
/// that asks for a ticket, the part is closed with what was recorded, and the recording returns the
/// error.
pub proof fn law_refusals_are_reported(
    dl: DownloaderView,
    round: RoundView,
    message: Seq<char>,
    rec: RecordingView,
    converted: bool,
)
    requires
        says_forbidden(message),
    ensures
        ({
            let outcome = RoundActionView::Finish(
                RoundOutcome::TicketedRoom,
                round.target_duration,
            );
            let refused = RecordingEvent::RoundFinished(
                RoundOutcome::TicketedRoom,
                round.target_duration,
            );
            &&& round_step(dl, round, RoundEventView::Response(403)).action == outcome
            &&& round_step(dl, round, RoundEventView::SegmentFailed(message)).action == outcome
            &&& recording_step(dl, rec, refused) == close_part(
                dl,
                rec,
                SessionEndReason::TicketedRoom,
            )
            &&& closed_part(dl, rec, SessionEndReason::TicketedRoom, converted).action
                == RecordingAction::ReturnTicketed
        }),
{
}

/// A recording returns or opens another part only once the current part is closed.
pub proof fn law_nothing_is_left_open(dl: DownloaderView, rec: RecordingView, event: RecordingEvent)
    requires
        recording_awaits(rec.phase, event),
    ensures
        ({
            let action = recording_step(dl, rec, event).action;
            action == RecordingAction::ReturnOk || action == RecordingAction::ReturnTicketed
                || action == RecordingAction::OpenPart ==> event == RecordingEvent::Removed || event
                == RecordingEvent::Converted(false)
        }),
{
}

/// What was recorded is not thrown away: the temporary file of a part with content is removed only
/// after it was converted.
pub proof fn law_content_is_kept(dl: DownloaderView, rec: RecordingView, event: RecordingEvent)
    requires
        recording_awaits(rec.phase, event),
        recording_step(dl, rec, event).action == RecordingAction::RemoveTemp,
    ensures
        rec.has_content ==> event == RecordingEvent::Converted(true),
{
}

/// The number of the part grows by one with each part that is opened behind another and stays as
/// it is otherwise. The new part starts empty and needs its own initialization segment.
pub proof fn law_parts_are_numbered(dl: DownloaderView, rec: RecordingView, event: RecordingEvent)
    requires
        recording_awaits(rec.phase, event),
    ensures
        ({
            let next = recording_step(dl, rec, event);
            if starts_next_part(rec, event) {
                &&& next.action == RecordingAction::OpenPart
                &&& next.recording == RecordingView::at_part(rec.part_index + 1)
                &&& !next.downloader.init_segment_downloaded
            } else {
                &&& next.action != RecordingAction::OpenPart
                &&& next.recording.part_index == rec.part_index
                &&& next.downloader == dl
            }
        }),
{
}

/// A part has content exactly from its first round that downloaded content on.
pub proof fn law_content_comes_from_rounds(dl: DownloaderView, rec: RecordingView, event: RecordingEvent)
    requires
        recording_awaits(rec.phase, event),
        !starts_next_part(rec, event),
    ensures
        recording_step(dl, rec, event).recording.has_content == (rec.has_content || is_content(
            event,
        )),
{
}

/// A recording never waits for less than one second or for more than three.
pub proof fn law_waits_are_short(dl: DownloaderView, rec: RecordingView, event: RecordingEvent)
    requires
        recording_awaits(rec.phase, event),
    ensures
        recording_step(dl, rec, event).action matches RecordingAction::Wait(seconds) ==> 1 <= seconds
            <= 3,
{
}

/// A longer target duration never makes the wait shorter.
pub proof fn law_wait_grows_with_the_target(a: u64, b: u64)
    requires
        a <= b,
    ensures
        wait_seconds(a) <= wait_seconds(b),
{
}

/// A part is cut after an hour, and not before.
pub proof fn law_parts_are_cut_after_an_hour(dl: DownloaderView, rec: RecordingView, elapsed: u64)
    requires
        rec.phase == RecordingPhase::Clock,
    ensures
        ({
            let next = recording_step(dl, rec, RecordingEvent::Clock(elapsed));
            if elapsed >= 3600 {
                next.recording.phase == RecordingPhase::Flush(SessionEndReason::MaxDurationReached)
            } else {
                next.action == RecordingAction::RunRound
            }
        }),
{
}

/// A shutdown signal, during a round or during a wait, ends the recording without an error, after
/// the part is closed.
pub proof fn law_shutdown_ends_the_recording(
    dl: DownloaderView,
    rec: RecordingView,
    end: WaitEnd,
    converted: bool,
)
    requires
        dl.listens_for_shutdown,
        end != WaitEnd::Elapsed(ShutdownPoll::Empty),
    ensures
        recording_step(dl, rec, RecordingEvent::ShutdownSignalled) == close_part(
            dl,
            rec,
            SessionEndReason::Shutdown,
        ),
        recording_step(dl, rec, RecordingEvent::WaitOver(end)) == close_part(
            dl,
            rec,
            SessionEndReason::Shutdown,
        ),
        closed_part(dl, rec, SessionEndReason::Shutdown, converted).action
            == RecordingAction::ReturnOk,
{
}

} // verus!
