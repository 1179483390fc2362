//! Recording a stream: polling the playlist round after round, cutting the recording into parts,
//! and closing each part.
#[allow(unused_imports)]
use crate::downloader::DownloaderView;
use crate::downloader::{HlsDownloader, RoundOutcome, WaitEnd};
#[allow(unused_imports)]
use crate::downloader::ShutdownPoll;
use vstd::pervasive::unreached;
use vstd::prelude::*;

verus! {

/// How many polls in a row may bring nothing new before the stream counts as ended.
pub const MAX_EMPTY_PLAYLISTS: u32 = 10;

/// How many rounds in a row may end with a segment that is to be tried again.
pub const MAX_CONSECUTIVE_PENDING_RETRIES: u32 = 20;

/// How long one part may become, in seconds.
pub const MAX_PART_SECS: u64 = 3600;

/// Why the recording of a part stopped.
#[derive(Debug, Clone, Copy, PartialEq, Eq, Structural)]
pub enum SessionEndReason {
    MaxDurationReached,
    FatalSegmentError,
    StreamEnded,
    Shutdown,
    TicketedRoom,
}

/// What a recording waits for.
#[derive(Debug, Clone, Copy, PartialEq, Eq, Structural)]
pub enum RecordingPhase {
    Open,
    Clock,
    Round,
    Wait,
    Flush(SessionEndReason),
    Convert(SessionEndReason),
    Remove(SessionEndReason),
    Over,
}

/// What happened to a recording.
#[derive(Debug, Clone, Copy, PartialEq, Eq, Structural)]
pub enum RecordingEvent {
    /// The temporary file of the part is open.
    PartOpened,
    /// The part has been recorded for this many whole seconds.
    Clock(u64),
    /// A round is over, with its outcome and the playlist's target duration in seconds.
    RoundFinished(RoundOutcome, u64),
    /// A round failed.
    RoundFailed,
    /// The shutdown channel cut a round short.
    ShutdownSignalled,
    /// A wait is over.
    WaitOver(WaitEnd),
    /// The temporary file was flushed and closed, or flushing failed.
    Flushed,
    /// The part was converted, or converting failed.
    Converted(bool),
    /// The temporary file was removed, or removing failed.
    Removed,
}

/// What a recording asks for.
#[derive(Debug, Clone, Copy, PartialEq, Eq, Structural)]
pub enum RecordingAction {
    /// Open the temporary file of the part.
    OpenPart,
    /// Look at the clock.
    CheckClock,
    /// Do one round over the playlist.
    RunRound,
    /// Wait for this many seconds, or until the shutdown channel says something.
    Wait(u64),
    /// Flush and close the temporary file.
    Flush,
    /// Convert the temporary file into the final file of the part.
    Convert,
    /// Remove the temporary file.
    RemoveTemp,
    /// Return: the recording is complete.
    ReturnOk,
    /// Return the error that the room asks for a ticket.
    ReturnTicketed,
}

/// A recording in parts.
pub struct Recording {
    part_index: u32,
    has_downloaded_content: bool,
    consecutive_empty_playlists: u32,
    consecutive_pending_retries: u32,
    phase: RecordingPhase,
}

/// A recording: the number of the current part, whether the part has content, how many polls in a
/// row brought nothing, how many rounds in a row are to be tried again, and what it waits for.
pub struct RecordingView {
    pub part_index: nat,
    pub has_content: bool,
    pub empty_polls: nat,
    pub pending_retries: nat,
    pub phase: RecordingPhase,
}

impl View for Recording {
    type V = RecordingView;

    closed spec fn view(&self) -> RecordingView {
        RecordingView {
            part_index: self.part_index as nat,
            has_content: self.has_downloaded_content,
            empty_polls: self.consecutive_empty_playlists as nat,
            pending_retries: self.consecutive_pending_retries as nat,
            phase: self.phase,
        }
    }
}

impl RecordingView {
    /// The start of a part.
    pub open spec fn at_part(part_index: nat) -> RecordingView {
        RecordingView {
            part_index,
            has_content: false,
            empty_polls: 0,
            pending_retries: 0,
            phase: RecordingPhase::Open,
        }
    }

    pub open spec fn in_phase(self, phase: RecordingPhase) -> RecordingView {
        RecordingView { phase, ..self }
    }

    /// The part is still being recorded.
    pub open spec fn is_recording(self) -> bool {
        ||| self.phase == RecordingPhase::Open
        ||| self.phase == RecordingPhase::Clock
        ||| self.phase == RecordingPhase::Round
        ||| self.phase == RecordingPhase::Wait
    }

    /// Parts are counted from one, and while a part is being recorded neither counter has reached
    /// its limit.
    pub open spec fn wf(self) -> bool {
        &&& 1 <= self.part_index <= i32::MAX
        &&& self.is_recording() ==> {
            &&& self.empty_polls < MAX_EMPTY_PLAYLISTS
            &&& self.pending_retries < MAX_CONSECUTIVE_PENDING_RETRIES
        }
    }
}

/// The event is one that a recording in this phase waits for.
pub open spec fn recording_awaits(phase: RecordingPhase, event: RecordingEvent) -> bool {
    match event {
        RecordingEvent::PartOpened => phase == RecordingPhase::Open,
        RecordingEvent::Clock(_) => phase == RecordingPhase::Clock,
        RecordingEvent::RoundFinished(_, _) => phase == RecordingPhase::Round,
        RecordingEvent::RoundFailed => phase == RecordingPhase::Round,
        RecordingEvent::ShutdownSignalled => phase == RecordingPhase::Round,
        RecordingEvent::WaitOver(_) => phase == RecordingPhase::Wait,
        RecordingEvent::Flushed => phase is Flush,
        RecordingEvent::Converted(_) => phase is Convert,
        RecordingEvent::Removed => phase is Remove,
    }
}

/// A downloader, a recording and what the recording asks for.
pub struct RecordingState {
    pub downloader: DownloaderView,
    pub recording: RecordingView,
    pub action: RecordingAction,
}

/// How long to wait, in seconds, when a playlist with this target duration brought nothing new.
pub open spec fn wait_seconds(target_duration: u64) -> u64 {
    if target_duration <= 2 {
        1
    } else if target_duration <= 6 {
        target_duration / 2
    } else {
        3
    }
}

/// The recording goes on with an action, in a phase.
pub open spec fn proceed(
    dl: DownloaderView,
    rec: RecordingView,
    phase: RecordingPhase,
    action: RecordingAction,
) -> RecordingState {
    RecordingState { downloader: dl, recording: rec.in_phase(phase), action }
}

/// The part is closed: whatever the reason, its file is flushed first.
pub open spec fn close_part(
    dl: DownloaderView,
    rec: RecordingView,
    reason: SessionEndReason,
) -> RecordingState {
    proceed(dl, rec, RecordingPhase::Flush(reason), RecordingAction::Flush)
}

/// A round is over.
pub open spec fn after_round(
    dl: DownloaderView,
    rec: RecordingView,
    outcome: RoundOutcome,
    target_duration: u64,
) -> RecordingState {
    match outcome {
        RoundOutcome::DownloadedContent => proceed(
            dl,
            RecordingView { has_content: true, empty_polls: 0, pending_retries: 0, ..rec },
            RecordingPhase::Clock,
            RecordingAction::CheckClock,
        ),
        RoundOutcome::NoNewSegments => {
            let counted = RecordingView {
                empty_polls: rec.empty_polls + 1,
                pending_retries: 0,
                ..rec
            };
            if counted.empty_polls >= MAX_EMPTY_PLAYLISTS {
                close_part(dl, counted, SessionEndReason::StreamEnded)
            } else {
                proceed(
                    dl,
                    counted,
                    RecordingPhase::Wait,
                    RecordingAction::Wait(wait_seconds(target_duration)),
                )
            }
        },
        RoundOutcome::PendingRetry => {
            let counted = RecordingView { pending_retries: rec.pending_retries + 1, ..rec };
            if counted.pending_retries >= MAX_CONSECUTIVE_PENDING_RETRIES {
                close_part(dl, counted, SessionEndReason::FatalSegmentError)
            } else {
                proceed(dl, counted, RecordingPhase::Wait, RecordingAction::Wait(1))
            }
        },
        RoundOutcome::FatalSegmentError => close_part(
            dl,
            rec,
            if rec.has_content {
                SessionEndReason::FatalSegmentError
            } else {
                SessionEndReason::StreamEnded
            },
        ),
        RoundOutcome::TicketedRoom => close_part(dl, rec, SessionEndReason::TicketedRoom),
    }
}

/// A round failed. Failed rounds count as polls that brought nothing.
pub open spec fn after_failed_round(dl: DownloaderView, rec: RecordingView) -> RecordingState {
    let counted = RecordingView { empty_polls: rec.empty_polls + 1, ..rec };
    if counted.empty_polls >= MAX_EMPTY_PLAYLISTS {
        close_part(dl, counted, SessionEndReason::StreamEnded)
    } else {
        proceed(dl, counted, RecordingPhase::Wait, RecordingAction::Wait(3))
    }
}

/// The end of a wait tells the recording to stop.
pub open spec fn wait_stops(dl: DownloaderView, end: WaitEnd) -> bool {
    dl.listens_for_shutdown && end != WaitEnd::Elapsed(ShutdownPoll::Empty)
}

/// A recording whose part stopped for this reason goes on with another part.
pub open spec fn goes_on(reason: SessionEndReason) -> bool {
    reason == SessionEndReason::MaxDurationReached || reason == SessionEndReason::FatalSegmentError
}

/// The part is closed. The recording returns, or starts the next part, which needs its own
/// initialization segment.
pub open spec fn after_part(
    dl: DownloaderView,
    rec: RecordingView,
    reason: SessionEndReason,
) -> RecordingState {
    if goes_on(reason) {
        RecordingState {
            downloader: DownloaderView { init_segment_downloaded: false, ..dl },
            recording: RecordingView::at_part(rec.part_index + 1),
            action: RecordingAction::OpenPart,
        }
    } else {
        proceed(
            dl,
            rec,
            RecordingPhase::Over,
            if reason == SessionEndReason::TicketedRoom {
                RecordingAction::ReturnTicketed
            } else {
                RecordingAction::ReturnOk
            },
        )
    }
}

/// What follows an event.
pub open spec fn recording_step(
    dl: DownloaderView,
    rec: RecordingView,
    event: RecordingEvent,
) -> RecordingState {
    match event {
        RecordingEvent::PartOpened => proceed(
            dl,
            rec,
            RecordingPhase::Clock,
            RecordingAction::CheckClock,
        ),
        RecordingEvent::Clock(elapsed) => if elapsed >= MAX_PART_SECS {
            close_part(dl, rec, SessionEndReason::MaxDurationReached)
        } else {
            proceed(dl, rec, RecordingPhase::Round, RecordingAction::RunRound)
        },
        RecordingEvent::RoundFinished(outcome, target_duration) => after_round(
            dl,
            rec,
            outcome,
            target_duration,
        ),
        RecordingEvent::RoundFailed => after_failed_round(dl, rec),
        RecordingEvent::ShutdownSignalled => close_part(dl, rec, SessionEndReason::Shutdown),
        RecordingEvent::WaitOver(end) => if wait_stops(dl, end) {
            close_part(dl, rec, SessionEndReason::Shutdown)
        } else {
            proceed(dl, rec, RecordingPhase::Clock, RecordingAction::CheckClock)
        },
        RecordingEvent::Flushed => {
            let reason = rec.phase->Flush_0;
            if rec.has_content {
                proceed(dl, rec, RecordingPhase::Convert(reason), RecordingAction::Convert)
            } else {
                proceed(dl, rec, RecordingPhase::Remove(reason), RecordingAction::RemoveTemp)
            }
        },
        RecordingEvent::Converted(success) => {
            let reason = rec.phase->Convert_0;
            if success {
                proceed(dl, rec, RecordingPhase::Remove(reason), RecordingAction::RemoveTemp)
            } else {
                after_part(dl, rec, reason)
            }
        },
        RecordingEvent::Removed => after_part(dl, rec, rec.phase->Remove_0),
    }
}

/// The event closes the current part and starts another one.
pub open spec fn starts_next_part(rec: RecordingView, event: RecordingEvent) -> bool {
    ||| event == RecordingEvent::Converted(false) && goes_on(rec.phase->Convert_0)
    ||| event == RecordingEvent::Removed && goes_on(rec.phase->Remove_0)
}

/// How long to wait, in seconds, when a playlist with this target duration brought nothing new.
pub fn calc_wait_time(target_duration: u64) -> (seconds: u64)
    ensures
        seconds == wait_seconds(target_duration),
{
    if target_duration <= 2 {
        1
    } else if target_duration <= 6 {
        target_duration / 2
    } else {
        3
    }
}

impl Recording {
    /// A recording before its first part. The first thing to do is to open the part.
    pub fn new() -> (recording: Recording)
        ensures
            recording@ == RecordingView::at_part(1),
            recording@.wf(),
    {
        Recording {
            part_index: 1,
            has_downloaded_content: false,
            consecutive_empty_playlists: 0,
            consecutive_pending_retries: 0,
            phase: RecordingPhase::Open,
        }
    }

    /// The number of the current part.
    pub fn part_index(&self) -> (index: u32)
        ensures
            index == self@.part_index,
    {
        self.part_index
    }

    /// Whether the current part has content.
    pub fn has_downloaded_content(&self) -> (content: bool)
        ensures
            content == self@.has_content,
    {
        self.has_downloaded_content
    }

    /// Whether the recording waits for this event.
    pub fn awaits(&self, event: RecordingEvent) -> (awaited: bool)
        ensures
            awaited == recording_awaits(self@.phase, event),
    {
        match event {
            RecordingEvent::PartOpened => self.phase == RecordingPhase::Open,
            RecordingEvent::Clock(_) => self.phase == RecordingPhase::Clock,
            RecordingEvent::RoundFinished(_, _) => self.phase == RecordingPhase::Round,
            RecordingEvent::RoundFailed => self.phase == RecordingPhase::Round,
            RecordingEvent::ShutdownSignalled => self.phase == RecordingPhase::Round,
            RecordingEvent::WaitOver(_) => self.phase == RecordingPhase::Wait,
            RecordingEvent::Flushed => matches!(self.phase, RecordingPhase::Flush(_)),
            RecordingEvent::Converted(_) => matches!(self.phase, RecordingPhase::Convert(_)),
            RecordingEvent::Removed => matches!(self.phase, RecordingPhase::Remove(_)),
        }
    }

    /// Whether this event closes the current part and starts another one.
    pub fn starts_next_part(&self, event: RecordingEvent) -> (starts: bool)
        requires
            recording_awaits(self@.phase, event),
        ensures
            starts == starts_next_part(self@, event),
    {
        match (event, self.phase) {
            (RecordingEvent::Converted(false), RecordingPhase::Convert(reason)) => part_goes_on(reason),
            (RecordingEvent::Removed, RecordingPhase::Remove(reason)) => part_goes_on(reason),
            _ => false,
        }
    }

    /// Goes on with an action, in a phase.
    fn proceed(&mut self, phase: RecordingPhase, action: RecordingAction) -> (next: RecordingAction)
        ensures
            final(self)@ == old(self)@.in_phase(phase),
            next == action,
    {
        self.phase = phase;
        action
    }

    /// Closes the part.
    fn close_part(&mut self, reason: SessionEndReason) -> (next: RecordingAction)
        ensures
            final(self)@ == old(self)@.in_phase(RecordingPhase::Flush(reason)),
            next == RecordingAction::Flush,
    {
        self.proceed(RecordingPhase::Flush(reason), RecordingAction::Flush)
    }

    /// A round is over.
    fn take_round(&mut self, outcome: RoundOutcome, target_duration: u64) -> (next: RecordingAction)
        requires
            old(self)@.wf(),
            old(self)@.phase == RecordingPhase::Round,
        ensures
            forall|dl: DownloaderView| #[trigger]
                after_round(dl, old(self)@, outcome, target_duration) == (RecordingState {
                    downloader: dl,
                    recording: final(self)@,
                    action: next,
                }),
            final(self)@.wf(),
    {
        match outcome {
            RoundOutcome::DownloadedContent => {
                self.has_downloaded_content = true;
                self.consecutive_empty_playlists = 0;
                self.consecutive_pending_retries = 0;
                self.proceed(RecordingPhase::Clock, RecordingAction::CheckClock)
            },
            RoundOutcome::NoNewSegments => {
                self.consecutive_pending_retries = 0;
                self.consecutive_empty_playlists = self.consecutive_empty_playlists + 1;
                if self.consecutive_empty_playlists >= MAX_EMPTY_PLAYLISTS {
                    self.close_part(SessionEndReason::StreamEnded)
                } else {
                    let seconds: u64 = calc_wait_time(target_duration);
                    self.proceed(RecordingPhase::Wait, RecordingAction::Wait(seconds))
                }
            },
            RoundOutcome::PendingRetry => {
                self.consecutive_pending_retries = self.consecutive_pending_retries + 1;
                if self.consecutive_pending_retries >= MAX_CONSECUTIVE_PENDING_RETRIES {
                    self.close_part(SessionEndReason::FatalSegmentError)
                } else {
                    self.proceed(RecordingPhase::Wait, RecordingAction::Wait(1))
                }
            },
            RoundOutcome::FatalSegmentError => {
                if self.has_downloaded_content {
                    self.close_part(SessionEndReason::FatalSegmentError)
                } else {
                    self.close_part(SessionEndReason::StreamEnded)
                }
            },
            RoundOutcome::TicketedRoom => self.close_part(SessionEndReason::TicketedRoom),
        }
    }

    /// A round failed.
    fn take_failed_round(&mut self) -> (next: RecordingAction)
        requires
            old(self)@.wf(),
            old(self)@.phase == RecordingPhase::Round,
        ensures
            forall|dl: DownloaderView| #[trigger]
                after_failed_round(dl, old(self)@) == (RecordingState {
                    downloader: dl,
                    recording: final(self)@,
                    action: next,
                }),
            final(self)@.wf(),
    {
        self.consecutive_empty_playlists = self.consecutive_empty_playlists + 1;
        if self.consecutive_empty_playlists >= MAX_EMPTY_PLAYLISTS {
            self.close_part(SessionEndReason::StreamEnded)
        } else {
            self.proceed(RecordingPhase::Wait, RecordingAction::Wait(3))
        }
    }
}

/// Whether a recording whose part stopped for this reason goes on with another part.
fn part_goes_on(reason: SessionEndReason) -> (on: bool)
    ensures
        on == goes_on(reason),
{
    match reason {
        SessionEndReason::MaxDurationReached => true,
        SessionEndReason::FatalSegmentError => true,
        SessionEndReason::StreamEnded => false,
        SessionEndReason::Shutdown => false,
        SessionEndReason::TicketedRoom => false,
    }
}

impl HlsDownloader {
    /// The part is closed: returns, or starts the next part.
    fn finish_part(&mut self, recording: &mut Recording, reason: SessionEndReason) -> (next: RecordingAction)
        requires
            old(self)@.wf(),
            old(recording)@.wf(),
            !old(recording)@.is_recording(),
            goes_on(reason) ==> old(recording)@.part_index < i32::MAX,
        ensures
            (RecordingState { downloader: final(self)@, recording: final(recording)@, action: next })
                == after_part(old(self)@, old(recording)@, reason),
            final(self)@.wf(),
            final(recording)@.wf(),
    {
        if part_goes_on(reason) {
            self.forget_init_segment();
            recording.part_index = recording.part_index + 1;
            recording.has_downloaded_content = false;
            recording.consecutive_empty_playlists = 0;
            recording.consecutive_pending_retries = 0;
            recording.proceed(RecordingPhase::Open, RecordingAction::OpenPart)
        } else {
            match reason {
                SessionEndReason::TicketedRoom => recording.proceed(
                    RecordingPhase::Over,
                    RecordingAction::ReturnTicketed,
                ),
                _ => recording.proceed(RecordingPhase::Over, RecordingAction::ReturnOk),
            }
        }
    }

    /// Recording a stream: takes what happened last and says what to do next.
    pub fn download_hls_stream(
        &mut self,
        recording: &mut Recording,
        event: RecordingEvent,
    ) -> (action: RecordingAction)
        requires
            old(self)@.wf(),
            old(recording)@.wf(),
            recording_awaits(old(recording)@.phase, event),
            event is ShutdownSignalled ==> old(self)@.listens_for_shutdown,
            starts_next_part(old(recording)@, event) ==> old(recording)@.part_index < i32::MAX,
        ensures
            (RecordingState { downloader: final(self)@, recording: final(recording)@, action })
                == recording_step(old(self)@, old(recording)@, event),
            final(self)@.wf(),
            final(recording)@.wf(),
    {
        match (event, recording.phase) {
            (RecordingEvent::PartOpened, _) => recording.proceed(
                RecordingPhase::Clock,
                RecordingAction::CheckClock,
            ),
            (RecordingEvent::Clock(elapsed), _) => {
                if elapsed >= MAX_PART_SECS {
                    recording.close_part(SessionEndReason::MaxDurationReached)
                } else {
                    recording.proceed(RecordingPhase::Round, RecordingAction::RunRound)
                }
            },
            (RecordingEvent::RoundFinished(outcome, target_duration), _) => recording.take_round(
                outcome,
                target_duration,
            ),
            (RecordingEvent::RoundFailed, _) => recording.take_failed_round(),
            (RecordingEvent::ShutdownSignalled, _) => recording.close_part(
                SessionEndReason::Shutdown,
            ),
            (RecordingEvent::WaitOver(end), _) => {
                if self.interruptible_sleep(end) {
                    recording.close_part(SessionEndReason::Shutdown)
                } else {
                    recording.proceed(RecordingPhase::Clock, RecordingAction::CheckClock)
                }
            },
            (RecordingEvent::Flushed, RecordingPhase::Flush(reason)) => {
                if recording.has_downloaded_content {
                    recording.proceed(RecordingPhase::Convert(reason), RecordingAction::Convert)
                } else {
                    recording.proceed(RecordingPhase::Remove(reason), RecordingAction::RemoveTemp)
                }
            },
            (RecordingEvent::Converted(success), RecordingPhase::Convert(reason)) => {
                if success {
                    recording.proceed(RecordingPhase::Remove(reason), RecordingAction::RemoveTemp)
                } else {
                    self.finish_part(recording, reason)
                }
            },
            (RecordingEvent::Removed, RecordingPhase::Remove(reason)) => self.finish_part(
                recording,
                reason,
            ),
            _ => unreached(),
        }
    }
}

} // verus!
