//! Laws of the single steps of a recording: what each event does to the recording, and what is asked
//! for next.
use crate::downloader::{DownloaderView, HlsDownloader, RoundOutcome, ShutdownPoll, WaitEnd};
use crate::recording::{
    calc_wait_time, recording_awaits, recording_step, starts_next_part, Recording, RecordingAction,
    RecordingEvent, RecordingPhase, RecordingState, RecordingView, SessionEndReason,
};
use vstd::prelude::*;

verus! {

/// A call does what the step says, and changes nothing else.
pub proof fn law_recording_calls_are_steps(event: RecordingEvent, action: RecordingAction)
    ensures
        forall|dl: &mut HlsDownloader, recording: &mut Recording| #[trigger]
            call_ensures(
                HlsDownloader::download_hls_stream,
                (dl, recording, event),
                action,
            ) ==> {
                let next = recording_step((*dl)@, (*recording)@, event);
                &&& (*final(dl))@ == next.downloader
                &&& (*final(recording))@ == next.recording
                &&& action == next.action
            },
{
}

/// A recording begins with its first part, which is still to be opened.
pub proof fn law_recordings_begin(recording: Recording)
    requires
        call_ensures(Recording::new, (), recording),
    ensures
        begins_part(recording@, 1),
{
}

/// The part with this number is about to be opened: it has no content, and nothing is counted.
pub open spec fn begins_part(rec: RecordingView, number: nat) -> bool {
    &&& rec.part_index == number
    &&& rec.phase == RecordingPhase::Open
    &&& !rec.has_content
    &&& rec.empty_polls == 0
    &&& rec.pending_retries == 0
}

/// The recording asks for this next and waits in this phase, still in the same part.
pub open spec fn asks(
    dl: DownloaderView,
    rec: RecordingView,
    next: RecordingState,
    phase: RecordingPhase,
    action: RecordingAction,
) -> bool {
    &&& next.downloader == dl
    &&& next.recording.part_index == rec.part_index
    &&& next.recording.phase == phase
    &&& next.action == action
}

/// The part is being closed for this reason, and its file is flushed first.
pub open spec fn closes(
    dl: DownloaderView,
    rec: RecordingView,
    next: RecordingState,
    reason: SessionEndReason,
) -> bool {
    asks(dl, rec, next, RecordingPhase::Flush(reason), RecordingAction::Flush)
}

/// The content and the two counts are the same.
pub open spec fn counts_same(rec: RecordingView, next: RecordingState) -> bool {
    &&& next.recording.has_content == rec.has_content
    &&& next.recording.empty_polls == rec.empty_polls
    &&& next.recording.pending_retries == rec.pending_retries
}

/// An open part looks at the clock first. Before an hour is over a round is done; after that the
/// part is closed.
pub proof fn law_the_clock_comes_before_a_round(dl: DownloaderView, rec: RecordingView, elapsed: u64)
    ensures
        ({
            let next = recording_step(dl, rec, RecordingEvent::PartOpened);
            asks(dl, rec, next, RecordingPhase::Clock, RecordingAction::CheckClock) && counts_same(
                rec,
                next,
            )
        }),
        ({
            let next = recording_step(dl, rec, RecordingEvent::Clock(elapsed));
            &&& counts_same(rec, next)
            &&& elapsed < 3600 ==> asks(
                dl,
                rec,
                next,
                RecordingPhase::Round,
                RecordingAction::RunRound,
            )
            &&& elapsed >= 3600 ==> closes(dl, rec, next, SessionEndReason::MaxDurationReached)
        }),
{
}

/// How long to wait for new segments: a second for a target duration of up to two seconds, half of
/// one of up to six, and three seconds for a longer one.
pub proof fn law_wait_times(target: u64, seconds: u64)
    requires
        call_ensures(calc_wait_time, (target,), seconds),
    ensures
        target <= 2 ==> seconds == 1,
        3 <= target <= 6 ==> 2 * seconds <= target < 2 * seconds + 2,
        target > 6 ==> seconds == 3,
{
}

/// What the outcome of a round leads to.
pub proof fn law_outcomes_decide(dl: DownloaderView, rec: RecordingView, target: u64)
    ensures
        ({
            let next = recording_step(
                dl,
                rec,
                RecordingEvent::RoundFinished(RoundOutcome::DownloadedContent, target),
            );
            &&& asks(dl, rec, next, RecordingPhase::Clock, RecordingAction::CheckClock)
            &&& next.recording.has_content
            &&& next.recording.empty_polls == 0
            &&& next.recording.pending_retries == 0
        }),
        ({
            let next = recording_step(
                dl,
                rec,
                RecordingEvent::RoundFinished(RoundOutcome::NoNewSegments, target),
            );
            &&& next.recording.has_content == rec.has_content
            &&& next.recording.empty_polls == rec.empty_polls + 1
            &&& next.recording.pending_retries == 0
            &&& rec.empty_polls + 1 >= 10 ==> closes(dl, rec, next, SessionEndReason::StreamEnded)
            &&& rec.empty_polls + 1 < 10 ==> {
                &&& next.action is Wait
                &&& asks(dl, rec, next, RecordingPhase::Wait, next.action)
                &&& target <= 2 ==> next.action == RecordingAction::Wait(1)
                &&& target == 3 ==> next.action == RecordingAction::Wait(1)
                &&& target == 4 || target == 5 ==> next.action == RecordingAction::Wait(2)
                &&& target >= 6 ==> next.action == RecordingAction::Wait(3)
            }
        }),
        ({
            let next = recording_step(
                dl,
                rec,
                RecordingEvent::RoundFinished(RoundOutcome::PendingRetry, target),
            );
            &&& next.recording.has_content == rec.has_content
            &&& next.recording.empty_polls == rec.empty_polls
            &&& next.recording.pending_retries == rec.pending_retries + 1
            &&& rec.pending_retries + 1 >= 20 ==> closes(
                dl,
                rec,
                next,
                SessionEndReason::FatalSegmentError,
            )
            &&& rec.pending_retries + 1 < 20 ==> asks(
                dl,
                rec,
                next,
                RecordingPhase::Wait,
                RecordingAction::Wait(1),
            )
        }),
        ({
            let next = recording_step(
                dl,
                rec,
                RecordingEvent::RoundFinished(RoundOutcome::FatalSegmentError, target),
            );
            &&& counts_same(rec, next)
            &&& rec.has_content ==> closes(dl, rec, next, SessionEndReason::FatalSegmentError)
            &&& !rec.has_content ==> closes(dl, rec, next, SessionEndReason::StreamEnded)
        }),
        ({
            let next = recording_step(
                dl,
                rec,
                RecordingEvent::RoundFinished(RoundOutcome::TicketedRoom, target),
            );
            counts_same(rec, next) && closes(dl, rec, next, SessionEndReason::TicketedRoom)
        }),
{
}

/// A failed round counts as one that found nothing new, is followed by a wait of three seconds, and
/// leaves the count of rounds to be tried again alone.
pub proof fn law_failed_rounds_are_counted(dl: DownloaderView, rec: RecordingView)
    ensures
        ({
            let next = recording_step(dl, rec, RecordingEvent::RoundFailed);
            &&& next.recording.has_content == rec.has_content
            &&& next.recording.empty_polls == rec.empty_polls + 1
            &&& next.recording.pending_retries == rec.pending_retries
            &&& rec.empty_polls + 1 >= 10 ==> closes(dl, rec, next, SessionEndReason::StreamEnded)
            &&& rec.empty_polls + 1 < 10 ==> asks(
                dl,
                rec,
                next,
                RecordingPhase::Wait,
                RecordingAction::Wait(3),
            )
        }),
{
}

/// A signal during a round closes the part. So does a wait that a signal cut short, or after which
/// the channel held a signal, was closed or had lost one, where the downloader listens; any other
/// wait is followed by a look at the clock.
pub proof fn law_signals_close_the_part(dl: DownloaderView, rec: RecordingView, end: WaitEnd)
    ensures
        ({
            let next = recording_step(dl, rec, RecordingEvent::ShutdownSignalled);
            counts_same(rec, next) && closes(dl, rec, next, SessionEndReason::Shutdown)
        }),
        ({
            let next = recording_step(dl, rec, RecordingEvent::WaitOver(end));
            let stops = dl.listens_for_shutdown && match end {
                WaitEnd::Signalled => true,
                WaitEnd::Elapsed(ShutdownPoll::Received) => true,
                WaitEnd::Elapsed(ShutdownPoll::Closed) => true,
                WaitEnd::Elapsed(ShutdownPoll::Lagged) => true,
                WaitEnd::Elapsed(ShutdownPoll::Empty) => false,
            };
            &&& counts_same(rec, next)
            &&& stops ==> closes(dl, rec, next, SessionEndReason::Shutdown)
            &&& !stops ==> asks(dl, rec, next, RecordingPhase::Clock, RecordingAction::CheckClock)
        }),
{
}

/// What a closed part leads to: another part after an hour or a broken connection, an error where
/// the room asks for a ticket, and else the end.
pub open spec fn is_done(
    dl: DownloaderView,
    rec: RecordingView,
    next: RecordingState,
    reason: SessionEndReason,
) -> bool {
    match reason {
        SessionEndReason::MaxDurationReached | SessionEndReason::FatalSegmentError => {
            &&& next.action == RecordingAction::OpenPart
            &&& begins_part(next.recording, rec.part_index + 1)
            &&& !next.downloader.init_segment_downloaded
            &&& next.downloader.downloaded == dl.downloaded
            &&& next.downloader.failed == dl.failed
            &&& next.downloader.total_processed == dl.total_processed
            &&& next.downloader.since_flush == dl.since_flush
            &&& next.downloader.listens_for_shutdown == dl.listens_for_shutdown
            &&& next.downloader.username == dl.username
        },
        SessionEndReason::StreamEnded | SessionEndReason::Shutdown => asks(
            dl,
            rec,
            next,
            RecordingPhase::Over,
            RecordingAction::ReturnOk,
        ),
        SessionEndReason::TicketedRoom => asks(
            dl,
            rec,
            next,
            RecordingPhase::Over,
            RecordingAction::ReturnTicketed,
        ),
    }
}

/// Closing a part: a part with content is converted, and its temporary file removed once that
/// succeeded; the file of one without content is removed. What follows depends on the reason alone.
pub proof fn law_parts_are_closed(
    dl: DownloaderView,
    rec: RecordingView,
    reason: SessionEndReason,
    converted: bool,
)
    ensures
        rec.phase == RecordingPhase::Flush(reason) ==> {
            let next = recording_step(dl, rec, RecordingEvent::Flushed);
            &&& counts_same(rec, next)
            &&& rec.has_content ==> asks(
                dl,
                rec,
                next,
                RecordingPhase::Convert(reason),
                RecordingAction::Convert,
            )
            &&& !rec.has_content ==> asks(
                dl,
                rec,
                next,
                RecordingPhase::Remove(reason),
                RecordingAction::RemoveTemp,
            )
        },
        rec.phase == RecordingPhase::Convert(reason) ==> {
            let next = recording_step(dl, rec, RecordingEvent::Converted(converted));
            &&& converted ==> counts_same(rec, next) && asks(
                dl,
                rec,
                next,
                RecordingPhase::Remove(reason),
                RecordingAction::RemoveTemp,
            )
            &&& !converted ==> is_done(dl, rec, next, reason)
        },
        rec.phase == RecordingPhase::Remove(reason) ==> is_done(
            dl,
            rec,
            recording_step(dl, rec, RecordingEvent::Removed),
            reason,
        ),
{
}

/// Each event is waited for in its own phase, and in no other.
pub proof fn law_recording_events_have_their_turn(phase: RecordingPhase, event: RecordingEvent)
    ensures
        recording_awaits(phase, event) <==> match phase {
            RecordingPhase::Open => event is PartOpened,
            RecordingPhase::Clock => event is Clock,
            RecordingPhase::Round => event is RoundFinished || event is RoundFailed || event
                is ShutdownSignalled,
            RecordingPhase::Wait => event is WaitOver,
            RecordingPhase::Flush(_) => event is Flushed,
            RecordingPhase::Convert(_) => event is Converted,
            RecordingPhase::Remove(_) => event is Removed,
            RecordingPhase::Over => false,
        },
{
}

/// An event that is waited for starts another part exactly if it closes a part that reached its
/// hour or lost its connection.
pub proof fn law_which_events_start_a_part(rec: RecordingView, event: RecordingEvent)
    requires
        recording_awaits(rec.phase, event),
    ensures
        starts_next_part(rec, event) <==> match rec.phase {
            RecordingPhase::Convert(reason) => event == RecordingEvent::Converted(false) && (reason
                == SessionEndReason::MaxDurationReached || reason
                == SessionEndReason::FatalSegmentError),
            RecordingPhase::Remove(reason) => reason == SessionEndReason::MaxDurationReached
                || reason == SessionEndReason::FatalSegmentError,
            _ => false,
        },
{
}

} // verus!
