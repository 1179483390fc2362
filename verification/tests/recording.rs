use screc::downloader::{RoundOutcome, ShutdownPoll, WaitEnd};
use screc::parts::{
    ffmpeg_args, final_mp4_name, temp_ts_extension, ticketed_message, ConvertArg, ConvertError,
    PartName,
};
use screc::recording::{calc_wait_time, Recording, RecordingAction, RecordingEvent};
use screc::HlsDownloader;

const QUIET: WaitEnd = WaitEnd::Elapsed(ShutdownPoll::Empty);

fn round(outcome: RoundOutcome) -> RecordingEvent {
    RecordingEvent::RoundFinished(outcome, 4)
}

struct Session {
    dl: HlsDownloader,
    recording: Recording,
}

impl Session {
    /// A recording that is about to do its first round.
    fn new() -> Session {
        let mut session = Session {
            dl: HlsDownloader::new("user".to_string()).with_shutdown_receiver(),
            recording: Recording::new(),
        };
        session.open();
        session
    }

    fn step(&mut self, event: RecordingEvent) -> RecordingAction {
        assert!(self.recording.awaits(event));
        self.dl.download_hls_stream(&mut self.recording, event)
    }

    fn open(&mut self) {
        assert_eq!(self.step(RecordingEvent::PartOpened), RecordingAction::CheckClock);
        assert_eq!(self.step(RecordingEvent::Clock(0)), RecordingAction::RunRound);
    }

    /// A round, the wait that it asks for, and the clock.
    fn poll(&mut self, event: RecordingEvent, seconds: u64) {
        assert_eq!(self.step(event), RecordingAction::Wait(seconds));
        assert_eq!(self.step(RecordingEvent::WaitOver(QUIET)), RecordingAction::CheckClock);
        assert_eq!(self.step(RecordingEvent::Clock(100)), RecordingAction::RunRound);
    }

    fn content(&mut self) {
        assert_eq!(self.step(round(RoundOutcome::DownloadedContent)), RecordingAction::CheckClock);
        assert_eq!(self.step(RecordingEvent::Clock(100)), RecordingAction::RunRound);
    }
}

#[test]
fn wait_times() {
    let expected = [(0, 1), (1, 1), (2, 1), (3, 1), (4, 2), (5, 2), (6, 3), (7, 3), (u64::MAX, 3)];
    for (target, seconds) in expected {
        assert_eq!(calc_wait_time(target), seconds);
    }
}

#[test]
fn ten_empty_polls_end_the_stream() {
    let mut session = Session::new();
    for _ in 0..9 {
        session.poll(round(RoundOutcome::NoNewSegments), 2);
    }
    assert_eq!(session.step(round(RoundOutcome::NoNewSegments)), RecordingAction::Flush);
    assert_eq!(session.step(RecordingEvent::Flushed), RecordingAction::RemoveTemp);
    assert_eq!(session.step(RecordingEvent::Removed), RecordingAction::ReturnOk);
}

#[test]
fn failed_rounds_count_as_empty() {
    let mut session = Session::new();
    for i in 0..9 {
        if i % 2 == 0 {
            session.poll(RecordingEvent::RoundFailed, 3);
        } else {
            session.poll(round(RoundOutcome::NoNewSegments), 2);
        }
    }
    assert_eq!(session.step(RecordingEvent::RoundFailed), RecordingAction::Flush);
}

#[test]
fn content_starts_the_count_anew() {
    let mut session = Session::new();
    for _ in 0..9 {
        session.poll(RecordingEvent::RoundFailed, 3);
    }
    session.content();
    for _ in 0..9 {
        session.poll(RecordingEvent::RoundFailed, 3);
    }
    assert_eq!(session.step(RecordingEvent::RoundFailed), RecordingAction::Flush);
    assert_eq!(session.step(RecordingEvent::Flushed), RecordingAction::Convert);
    assert_eq!(session.step(RecordingEvent::Converted(true)), RecordingAction::RemoveTemp);
    assert_eq!(session.step(RecordingEvent::Removed), RecordingAction::ReturnOk);
}

#[test]
fn twenty_pending_rounds_start_another_part() {
    let mut session = Session::new();
    for _ in 0..19 {
        session.poll(round(RoundOutcome::PendingRetry), 1);
    }
    assert_eq!(session.step(round(RoundOutcome::PendingRetry)), RecordingAction::Flush);
    assert_eq!(session.step(RecordingEvent::Flushed), RecordingAction::RemoveTemp);
    assert!(session.recording.starts_next_part(RecordingEvent::Removed));
    assert_eq!(session.step(RecordingEvent::Removed), RecordingAction::OpenPart);
    assert_eq!(session.recording.part_index(), 2);
}

#[test]
fn an_empty_poll_forgets_pending_rounds() {
    let mut session = Session::new();
    for _ in 0..19 {
        session.poll(round(RoundOutcome::PendingRetry), 1);
    }
    session.poll(round(RoundOutcome::NoNewSegments), 2);
    for _ in 0..19 {
        session.poll(round(RoundOutcome::PendingRetry), 1);
    }
}

#[test]
fn pending_rounds_do_not_reset_the_fruitless_ones() {
    let mut session = Session::new();
    for i in 0..9 {
        if i % 3 == 0 {
            session.poll(round(RoundOutcome::NoNewSegments), 2);
        } else {
            session.poll(RecordingEvent::RoundFailed, 3);
        }
        session.poll(round(RoundOutcome::PendingRetry), 1);
    }
    assert_eq!(session.step(RecordingEvent::RoundFailed), RecordingAction::Flush);
    assert_eq!(session.step(RecordingEvent::Flushed), RecordingAction::RemoveTemp);
    assert_eq!(session.step(RecordingEvent::Removed), RecordingAction::ReturnOk);
}

#[test]
fn failed_rounds_do_not_reset_the_pending_ones() {
    let mut session = Session::new();
    session.content();
    for i in 0..19 {
        if i % 3 == 0 {
            session.poll(RecordingEvent::RoundFailed, 3);
        }
        session.poll(round(RoundOutcome::PendingRetry), 1);
    }
    assert!(session.recording.has_downloaded_content());
    assert_eq!(session.step(round(RoundOutcome::PendingRetry)), RecordingAction::Flush);
    assert_eq!(session.step(RecordingEvent::Flushed), RecordingAction::Convert);
    assert_eq!(session.step(RecordingEvent::Converted(true)), RecordingAction::RemoveTemp);
    assert_eq!(session.step(RecordingEvent::Removed), RecordingAction::OpenPart);
    assert!(!session.recording.has_downloaded_content());
}

#[test]
fn a_broken_connection_without_content_ends_the_stream() {
    let mut session = Session::new();
    assert_eq!(session.step(round(RoundOutcome::FatalSegmentError)), RecordingAction::Flush);
    assert_eq!(session.step(RecordingEvent::Flushed), RecordingAction::RemoveTemp);
    assert_eq!(session.step(RecordingEvent::Removed), RecordingAction::ReturnOk);
}

#[test]
fn a_broken_connection_with_content_starts_another_part() {
    let mut session = Session::new();
    session.content();
    assert_eq!(session.step(round(RoundOutcome::FatalSegmentError)), RecordingAction::Flush);
    assert_eq!(session.step(RecordingEvent::Flushed), RecordingAction::Convert);
    assert_eq!(session.step(RecordingEvent::Converted(true)), RecordingAction::RemoveTemp);
    assert_eq!(session.step(RecordingEvent::Removed), RecordingAction::OpenPart);
    session.open();
    assert_eq!(session.step(round(RoundOutcome::FatalSegmentError)), RecordingAction::Flush);
    assert_eq!(session.step(RecordingEvent::Flushed), RecordingAction::RemoveTemp);
    assert_eq!(session.step(RecordingEvent::Removed), RecordingAction::ReturnOk);
}

#[test]
fn a_part_that_is_not_converted_is_kept() {
    let mut session = Session::new();
    session.content();
    assert_eq!(session.step(RecordingEvent::ShutdownSignalled), RecordingAction::Flush);
    assert_eq!(session.step(RecordingEvent::Flushed), RecordingAction::Convert);
    assert_eq!(session.step(RecordingEvent::Converted(false)), RecordingAction::ReturnOk);
}

#[test]
fn ticketed_rooms_are_reported_after_converting() {
    let mut session = Session::new();
    session.content();
    assert_eq!(session.step(round(RoundOutcome::TicketedRoom)), RecordingAction::Flush);
    assert_eq!(session.step(RecordingEvent::Flushed), RecordingAction::Convert);
    assert_eq!(session.step(RecordingEvent::Converted(true)), RecordingAction::RemoveTemp);
    assert_eq!(session.step(RecordingEvent::Removed), RecordingAction::ReturnTicketed);
    assert_eq!(ticketed_message(), "主播开启了门票/付费限制，已停止录制");
}

#[test]
fn parts_are_cut_after_an_hour() {
    let mut session = Session::new();
    assert_eq!(session.step(round(RoundOutcome::DownloadedContent)), RecordingAction::CheckClock);
    assert_eq!(session.step(RecordingEvent::Clock(3599)), RecordingAction::RunRound);
    assert_eq!(session.step(round(RoundOutcome::DownloadedContent)), RecordingAction::CheckClock);
    assert_eq!(session.step(RecordingEvent::Clock(3600)), RecordingAction::Flush);
    assert_eq!(session.step(RecordingEvent::Flushed), RecordingAction::Convert);
    assert_eq!(session.step(RecordingEvent::Converted(false)), RecordingAction::OpenPart);
    assert_eq!(session.recording.part_index(), 2);
}

#[test]
fn a_signal_during_a_wait_ends_the_recording() {
    let mut session = Session::new();
    assert_eq!(session.step(RecordingEvent::RoundFailed), RecordingAction::Wait(3));
    assert_eq!(session.step(RecordingEvent::WaitOver(WaitEnd::Signalled)), RecordingAction::Flush);
    assert_eq!(session.step(RecordingEvent::Flushed), RecordingAction::RemoveTemp);
    assert_eq!(session.step(RecordingEvent::Removed), RecordingAction::ReturnOk);
}

#[test]
fn events_out_of_turn_are_not_awaited() {
    let session = Session::new();
    assert!(!session.recording.awaits(RecordingEvent::PartOpened));
    assert!(!session.recording.awaits(RecordingEvent::Flushed));
    assert!(!session.recording.awaits(RecordingEvent::Converted(true)));
    assert!(!session.recording.awaits(RecordingEvent::Removed));
    assert!(session.recording.awaits(RecordingEvent::ShutdownSignalled));
    assert!(!session.recording.starts_next_part(RecordingEvent::ShutdownSignalled));
}

#[test]
fn file_names() {
    assert_eq!(temp_ts_extension(1), "tmp1.ts");
    assert_eq!(temp_ts_extension(120), "tmp120.ts");
    assert_eq!(final_mp4_name("show", 1), PartName::Extension("mp4".to_string()));
    assert_eq!(final_mp4_name("show", 2), PartName::FileName("show_part2.mp4".to_string()));
    assert_eq!(final_mp4_name("", 4294967295), PartName::FileName("_part4294967295.mp4".to_string()));
}

#[test]
fn file_names_of_parts_differ() {
    for i in 1..40u32 {
        for j in 1..i {
            assert_ne!(temp_ts_extension(i), temp_ts_extension(j));
            assert_ne!(final_mp4_name("a_part1", i), final_mp4_name("a_part1", j));
        }
    }
}

#[test]
fn converter_arguments() {
    let words: Vec<String> = ffmpeg_args()
        .into_iter()
        .map(|arg| match arg {
            ConvertArg::Text(text) => text,
            ConvertArg::TsPath => "in.ts".to_string(),
            ConvertArg::Mp4Path => "out.mp4".to_string(),
        })
        .collect();
    assert_eq!(
        words.join(" "),
        "-fflags +genpts+igndts -f mp4 -i in.ts -c:a copy -c:v copy -movflags +faststart+frag_keyframe+empty_moov -y out.mp4"
    );
}

#[test]
fn converter_results() {
    let dl = HlsDownloader::new("user".to_string());
    assert_eq!(dl.convert_ts_to_mp4(Ok(true)), Ok(()));
    assert_eq!(dl.convert_ts_to_mp4(Ok(false)), Err(ConvertError::Failed));
    assert_eq!(dl.convert_ts_to_mp4(Err("x".to_string())), Err(ConvertError::NotRun("x".to_string())));
    assert_eq!(ConvertError::Failed.message(), "视频结构重整失败，请查看上方详细日志。");
    assert_eq!(
        ConvertError::NotRun("x".to_string()).message(),
        "运行 FFmpeg 失败: x。请确保 FFmpeg 已安装并在 PATH 中。"
    );
}
