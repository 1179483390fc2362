use screc::downloader::{
    choose_init_address, playlist_uris, NewSegment, PlaylistRound, RoundAction, RoundError,
    RoundEvent, RoundOutcome, ShutdownPoll, WaitEnd,
};
use screc::playlist::Playlist;
use screc::HlsDownloader;

const URL: &str = "https://media.example.com/live/playlist.m3u8";

fn downloader() -> HlsDownloader {
    HlsDownloader::new("user".to_string())
}

fn playlist(uris: &[&str]) -> String {
    let mut text = "#EXTM3U\n#EXT-X-VERSION:3\n#EXT-X-TARGETDURATION:4\n".to_string();
    for uri in uris {
        text.push_str("#EXTINF:4.0,\n");
        text.push_str(uri);
        text.push('\n');
    }
    text
}

fn address(name: &str) -> String {
    format!("https://media.example.com/live/{}", name)
}

fn fetch(name: &str) -> RoundAction {
    RoundAction::FetchSegment(address(name))
}

/// Starts a round and hands it a playlist.
fn begin(dl: &mut HlsDownloader, content: &str) -> (PlaylistRound, RoundAction) {
    let mut round = PlaylistRound::new(URL);
    assert_eq!(dl.download_playlist_segments(&mut round, RoundEvent::Response(200)), RoundAction::ReadContent);
    assert!(round.awaits(&RoundEvent::Content(String::new())));
    let action = dl.download_playlist_segments(&mut round, RoundEvent::Content(content.to_string()));
    (round, action)
}

fn step(dl: &mut HlsDownloader, round: &mut PlaylistRound, event: RoundEvent) -> RoundAction {
    assert!(round.awaits(&event));
    dl.download_playlist_segments(round, event)
}

fn fetched(length: usize) -> RoundEvent {
    RoundEvent::SegmentFetched(vec![1; length])
}

fn fail(text: &str) -> RoundEvent {
    RoundEvent::SegmentFailed(text.to_string())
}

#[test]
fn refused_playlist_is_a_ticketed_room() {
    let mut round = PlaylistRound::new(URL);
    assert_eq!(
        downloader().download_playlist_segments(&mut round, RoundEvent::Response(403)),
        RoundAction::Finish(RoundOutcome::TicketedRoom, 6)
    );
}

#[test]
fn other_statuses_fail_the_round() {
    for status in [199u16, 300, 404, 500] {
        let mut round = PlaylistRound::new(URL);
        assert_eq!(
            downloader().download_playlist_segments(&mut round, RoundEvent::Response(status)),
            RoundAction::Fail(RoundError::Status(status))
        );
    }
    let mut round = PlaylistRound::new(URL);
    assert_eq!(
        downloader().download_playlist_segments(&mut round, RoundEvent::Response(299)),
        RoundAction::ReadContent
    );
}

#[test]
fn round_error_messages() {
    assert_eq!(RoundError::Status(404).message(), "获取播放列表失败 (404 Not Found): 该地址可能已失效");
    assert_eq!(RoundError::Status(404).message_with("x"), "获取播放列表失败 (x): 该地址可能已失效");
    assert_eq!(RoundError::Url("empty host".to_string()).message(), "empty host");
    assert_eq!(RoundError::Playlist("boom".to_string()).message(), "解析 M3U8 失败: boom");
    assert_eq!(RoundError::MasterPlaylist.message(), "此上下文不支持主播放列表");
}

#[test]
fn a_round_writes_all_new_segments() {
    let mut dl = downloader();
    let (mut round, action) = begin(&mut dl, &playlist(&["a.ts", "b.ts"]));
    assert_eq!(action, fetch("a.ts"));
    assert_eq!(step(&mut dl, &mut round, fetched(1000)), RoundAction::WriteSegment(vec![1; 1000]));
    assert_eq!(step(&mut dl, &mut round, RoundEvent::SegmentWritten), fetch("b.ts"));
    assert_eq!(step(&mut dl, &mut round, fetched(1000)), RoundAction::WriteSegment(vec![1; 1000]));
    assert_eq!(
        step(&mut dl, &mut round, RoundEvent::SegmentWritten),
        RoundAction::Finish(RoundOutcome::DownloadedContent, 4)
    );
    assert_eq!(dl.total_processed_segments(), 2);
    assert_eq!(dl.username(), "user");
}

#[test]
fn nothing_is_recorded_twice() {
    let mut dl = downloader();
    let (mut round, _) = begin(&mut dl, &playlist(&["a.ts"]));
    step(&mut dl, &mut round, fetched(1000));
    step(&mut dl, &mut round, RoundEvent::SegmentWritten);
    let (_, again) = begin(&mut dl, &playlist(&["a.ts"]));
    assert_eq!(again, RoundAction::Finish(RoundOutcome::NoNewSegments, 4));
    let (_, more) = begin(&mut dl, &playlist(&["a.ts", "https://cdn.example.com/b.ts"]));
    assert_eq!(more, RoundAction::FetchSegment("https://cdn.example.com/b.ts".to_string()));
    assert_eq!(dl.select_unseen(vec!["b".to_string(), "a.ts".to_string(), "c".to_string()]), vec!["b", "c"]);
}

#[test]
fn the_output_is_flushed_after_ten_segments() {
    let mut dl = downloader();
    let names: Vec<String> = (0..11).map(|i| format!("s{}.ts", i)).collect();
    let uris: Vec<&str> = names.iter().map(|name| name.as_str()).collect();
    let (mut round, mut action) = begin(&mut dl, &playlist(&uris));
    for i in 0..9 {
        assert_eq!(action, fetch(uris[i]));
        step(&mut dl, &mut round, fetched(500));
        action = step(&mut dl, &mut round, RoundEvent::SegmentWritten);
    }
    assert_eq!(action, fetch("s9.ts"));
    step(&mut dl, &mut round, fetched(500));
    assert_eq!(step(&mut dl, &mut round, RoundEvent::SegmentWritten), RoundAction::Flush);
    assert_eq!(step(&mut dl, &mut round, RoundEvent::Flushed), fetch("s10.ts"));
    step(&mut dl, &mut round, fetched(500));
    assert_eq!(
        step(&mut dl, &mut round, RoundEvent::SegmentWritten),
        RoundAction::Finish(RoundOutcome::DownloadedContent, 4)
    );
}

#[test]
fn a_segment_whose_flush_failed_is_fetched_again() {
    let mut dl = downloader();
    let names: Vec<String> = (0..10).map(|i| format!("s{}.ts", i)).collect();
    let uris: Vec<&str> = names.iter().map(|name| name.as_str()).collect();
    let (mut round, _) = begin(&mut dl, &playlist(&uris));
    for _ in 0..10 {
        step(&mut dl, &mut round, fetched(500));
        step(&mut dl, &mut round, RoundEvent::SegmentWritten);
    }
    drop(round);
    let (mut again, action) = begin(&mut dl, &playlist(&uris));
    assert_eq!(action, fetch("s9.ts"));
    step(&mut dl, &mut again, fetched(500));
    assert_eq!(step(&mut dl, &mut again, RoundEvent::SegmentWritten), RoundAction::Flush);
    assert_eq!(dl.total_processed_segments(), 11);
}

#[test]
fn empty_segments_are_settled_unwritten() {
    let mut dl = downloader();
    let (mut round, _) = begin(&mut dl, &playlist(&["a.ts"]));
    assert_eq!(
        step(&mut dl, &mut round, fetched(0)),
        RoundAction::Finish(RoundOutcome::NoNewSegments, 4)
    );
    assert_eq!(dl.total_processed_segments(), 0);
    assert!(dl.select_unseen(vec!["a.ts".to_string()]).is_empty());
}

#[test]
fn a_failed_segment_is_tried_in_later_rounds_and_given_up_at_last() {
    let mut dl = downloader();
    for _ in 0..4 {
        let (mut round, action) = begin(&mut dl, &playlist(&["a.ts", "b.ts"]));
        assert_eq!(action, fetch("a.ts"));
        assert_eq!(
            step(&mut dl, &mut round, fail("404_NOT_FOUND")),
            RoundAction::Finish(RoundOutcome::PendingRetry, 4)
        );
    }
    let (mut round, action) = begin(&mut dl, &playlist(&["a.ts", "b.ts"]));
    assert_eq!(action, fetch("a.ts"));
    assert_eq!(step(&mut dl, &mut round, fail("404_NOT_FOUND")), fetch("b.ts"));
    assert_eq!(dl.select_unseen(vec!["a.ts".to_string(), "b.ts".to_string()]), vec!["b.ts"]);
}

#[test]
fn a_success_forgets_the_failures() {
    let mut dl = downloader();
    let (mut round, _) = begin(&mut dl, &playlist(&["a.ts"]));
    step(&mut dl, &mut round, fail("x"));
    let (mut round, _) = begin(&mut dl, &playlist(&["a.ts", "b.ts"]));
    step(&mut dl, &mut round, fetched(200));
    assert_eq!(step(&mut dl, &mut round, RoundEvent::SegmentWritten), fetch("b.ts"));
    assert_eq!(
        step(&mut dl, &mut round, fail("x")),
        RoundAction::Finish(RoundOutcome::DownloadedContent, 4)
    );
}

#[test]
fn a_refused_segment_ends_the_round_uncounted() {
    let mut dl = downloader();
    for _ in 0..7 {
        let (mut round, action) = begin(&mut dl, &playlist(&["a.ts"]));
        assert_eq!(action, fetch("a.ts"));
        assert_eq!(
            step(&mut dl, &mut round, fail("403_FORBIDDEN")),
            RoundAction::Finish(RoundOutcome::TicketedRoom, 4)
        );
    }
}

#[test]
fn three_failures_in_a_row_are_fatal() {
    let mut dl = downloader();
    let uris = ["a.ts", "b.ts", "c.ts"];
    for uri in ["a.ts", "b.ts"] {
        for _ in 0..4 {
            let (mut round, _) = begin(&mut dl, &playlist(&[uri]));
            step(&mut dl, &mut round, fail("x"));
        }
    }
    let (mut round, _) = begin(&mut dl, &playlist(&uris));
    assert_eq!(step(&mut dl, &mut round, fail("x")), fetch("b.ts"));
    assert_eq!(step(&mut dl, &mut round, fail("x")), fetch("c.ts"));
    assert_eq!(
        step(&mut dl, &mut round, fail("x")),
        RoundAction::Finish(RoundOutcome::FatalSegmentError, 4)
    );
}

#[test]
fn the_init_segment_comes_first_and_once() {
    let mut dl = downloader();
    let content = format!("#EXTM3U\n#EXT-X-MAP:URI=\"init.mp4\"\n{}", &playlist(&["a.ts"])[8..]);
    let (mut round, action) = begin(&mut dl, &content);
    assert_eq!(action, RoundAction::FetchInit(address("init.mp4")));
    assert_eq!(step(&mut dl, &mut round, RoundEvent::InitFetched(vec![7; 3])), RoundAction::WriteInit(vec![7; 3]));
    assert_eq!(step(&mut dl, &mut round, RoundEvent::InitWritten), fetch("a.ts"));
    let (_, again) = begin(&mut dl, &content);
    assert_eq!(again, fetch("a.ts"));
}

#[test]
fn an_init_segment_alone_is_content() {
    let mut dl = downloader();
    let content = "#EXTM3U\n#EXT-X-TARGETDURATION:4\n#EXT-X-MAP:URI=\"init.mp4\"\n";
    let (mut round, _) = begin(&mut dl, content);
    step(&mut dl, &mut round, RoundEvent::InitFetched(vec![7; 3]));
    assert_eq!(
        step(&mut dl, &mut round, RoundEvent::InitWritten),
        RoundAction::Finish(RoundOutcome::DownloadedContent, 4)
    );
}

#[test]
fn a_missing_init_segment_is_tried_again() {
    let mut dl = downloader();
    let content = "#EXTM3U\n#EXT-X-MAP:URI=\"init.mp4\"\n#EXTINF:2,\na.ts\n";
    let (mut round, _) = begin(&mut dl, content);
    assert_eq!(
        step(&mut dl, &mut round, RoundEvent::InitFailed),
        RoundAction::Finish(RoundOutcome::PendingRetry, 6)
    );
    let (_, again) = begin(&mut dl, content);
    assert_eq!(again, RoundAction::FetchInit(address("init.mp4")));
}

#[test]
fn what_is_no_playlist_fails_the_round() {
    let mut dl = downloader();
    let (_, action) = begin(&mut dl, "<html></html>");
    match action {
        RoundAction::Fail(RoundError::Playlist(message)) => assert!(message.contains("Tag"), "{}", message),
        other => panic!("{:?}", other),
    }
}

#[test]
fn master_playlists_are_not_followed() {
    let mut dl = downloader();
    let (_, action) = begin(&mut dl, "#EXTM3U\n#EXT-X-STREAM-INF:BANDWIDTH=100\nlow.m3u8\n");
    assert_eq!(action, RoundAction::Fail(RoundError::MasterPlaylist));
}

#[test]
fn a_bad_playlist_address_fails_the_round() {
    let mut dl = downloader();
    let mut round = PlaylistRound::new("no address");
    step(&mut dl, &mut round, RoundEvent::Response(200));
    assert_eq!(
        step(&mut dl, &mut round, RoundEvent::Content(playlist(&["https://a.example.com/a.ts"]))),
        RoundAction::Fail(RoundError::Url("relative URL without a base".to_string()))
    );
    let mut round = PlaylistRound::new("no address");
    step(&mut dl, &mut round, RoundEvent::Response(200));
    assert_eq!(
        step(&mut dl, &mut round, RoundEvent::Content("#EXT-X-MAP:URI=\"i.mp4\"\n".to_string())),
        RoundAction::Fail(RoundError::Url("relative URL without a base".to_string()))
    );
}

#[test]
fn uris_from_parser_results() {
    let uris = vec!["a".to_string()];
    assert_eq!(playlist_uris(Ok(Playlist::Media(uris)), Ok("https://x/".to_string())), Ok(vec!["a".to_string()]));
    assert_eq!(playlist_uris(Ok(Playlist::Master), Err("e".to_string())), Err(RoundError::MasterPlaylist));
    assert_eq!(playlist_uris(Err("p".to_string()), Err("e".to_string())), Err(RoundError::Playlist("p".to_string())));
    assert_eq!(playlist_uris(Ok(Playlist::Media(vec![])), Err("e".to_string())), Err(RoundError::Url("e".to_string())));
}

#[test]
fn init_address_from_parser_results() {
    assert_eq!(choose_init_address(None, Err("e".to_string())), Ok(None));
    assert_eq!(choose_init_address(Some("i".to_string()), Err("e".to_string())), Err("e".to_string()));
    assert_eq!(choose_init_address(Some("i".to_string()), Ok("j".to_string())), Ok(Some("j".to_string())));
    assert_eq!(choose_init_address(Some("http:i".to_string()), Ok("j".to_string())), Ok(Some("http:i".to_string())));
}

#[test]
fn segments_can_be_handed_to_a_round() {
    let mut round = PlaylistRound::new(URL);
    let segment = NewSegment { address: "https://a/b".to_string(), uri: "b".to_string() };
    assert_eq!(round.begin_segments(vec![segment]), RoundAction::FetchSegment("https://a/b".to_string()));
    let mut round = PlaylistRound::new(URL);
    assert_eq!(round.begin_segments(vec![]), RoundAction::Finish(RoundOutcome::NoNewSegments, 6));
}

#[test]
fn shutdown_signals() {
    let deaf = downloader();
    let listening = downloader().with_shutdown_receiver();
    for poll in [ShutdownPoll::Received, ShutdownPoll::Closed, ShutdownPoll::Lagged] {
        assert!(listening.check_shutdown_signal(poll));
        assert!(!deaf.check_shutdown_signal(poll));
        assert!(listening.interruptible_sleep(WaitEnd::Elapsed(poll)));
    }
    assert!(!listening.check_shutdown_signal(ShutdownPoll::Empty));
    assert!(!listening.interruptible_sleep(WaitEnd::Elapsed(ShutdownPoll::Empty)));
    assert!(listening.interruptible_sleep(WaitEnd::Signalled));
    assert!(!deaf.interruptible_sleep(WaitEnd::Elapsed(ShutdownPoll::Received)));
}

#[test]
fn a_uri_listed_twice_is_fetched_twice() {
    let mut dl = downloader();
    let (mut round, action) = begin(&mut dl, &playlist(&["a.ts", "a.ts"]));
    assert_eq!(action, fetch("a.ts"));
    step(&mut dl, &mut round, fetched(200));
    assert_eq!(step(&mut dl, &mut round, RoundEvent::SegmentWritten), fetch("a.ts"));
    assert_eq!(
        step(&mut dl, &mut round, fail("x")),
        RoundAction::Finish(RoundOutcome::DownloadedContent, 4)
    );
    assert!(dl.select_unseen(vec!["a.ts".to_string()]).is_empty());
}

#[test]
fn the_memory_lasts_over_rounds() {
    let mut dl = downloader();
    for _ in 0..4 {
        let (mut round, _) = begin(&mut dl, &playlist(&["a.ts"]));
        assert_eq!(round.new_segment_count(), 1);
        assert_eq!(round.current_uri(), Some("a.ts"));
        step(&mut dl, &mut round, fail("x"));
    }
    let (dropped, _) = begin(&mut dl, &playlist(&["a.ts", "b.ts"]));
    assert_eq!(dropped.new_segment_count(), 2);
    let (mut round, _) = begin(&mut dl, &playlist(&["b.ts", "a.ts"]));
    step(&mut dl, &mut round, fetched(200));
    assert_eq!(step(&mut dl, &mut round, RoundEvent::SegmentWritten), fetch("a.ts"));
    assert_eq!(
        step(&mut dl, &mut round, fail("x")),
        RoundAction::Finish(RoundOutcome::DownloadedContent, 4)
    );
    assert_eq!(round.current_uri(), None);
    let (_, later) = begin(&mut dl, &playlist(&["a.ts", "b.ts", "c.ts"]));
    assert_eq!(later, fetch("c.ts"));
}

#[test]
fn the_output_is_what_was_fetched() {
    let mut dl = downloader();
    let content = "#EXTM3U\n#EXT-X-MAP:URI=\"init.mp4\"\n#EXTINF:2,\na.ts\n#EXTINF:2,\nb.ts\n#EXTINF:2,\nc.ts\n";
    let (mut round, mut action) = begin(&mut dl, content);
    let mut output: Vec<u8> = Vec::new();
    loop {
        let event = match action {
            RoundAction::FetchInit(_) => RoundEvent::InitFetched(vec![9, 8]),
            RoundAction::FetchSegment(from) if from == address("a.ts") => RoundEvent::SegmentFetched(vec![1, 2, 3]),
            RoundAction::FetchSegment(from) if from == address("b.ts") => RoundEvent::SegmentFetched(vec![]),
            RoundAction::FetchSegment(_) => RoundEvent::SegmentFetched(vec![4]),
            RoundAction::WriteInit(data) => {
                output.extend(data);
                RoundEvent::InitWritten
            }
            RoundAction::WriteSegment(data) => {
                output.extend(data);
                RoundEvent::SegmentWritten
            }
            RoundAction::Finish(outcome, _) => {
                assert_eq!(outcome, RoundOutcome::DownloadedContent);
                break;
            }
            other => panic!("{:?}", other),
        };
        action = step(&mut dl, &mut round, event);
    }
    assert_eq!(output, vec![9, 8, 1, 2, 3, 4]);
}

#[test]
fn a_processed_playlist_is_read_like_its_text() {
    let add = |text: &str| format!("{}#EXTINF:4.0,\nextra.ts\n", text);
    let mut dl = downloader();
    let mut round = PlaylistRound::new(URL);
    step(&mut dl, &mut round, RoundEvent::Response(200));
    let action = dl.take_playlist(&mut round, playlist(&["a.ts"]), Some(&add));
    assert_eq!(action, fetch("a.ts"));
    assert_eq!(round.new_segment_count(), 2);
    let mut plain = downloader();
    let (sent, same) = begin(&mut plain, &add(&playlist(&["a.ts"])));
    assert_eq!(same, fetch("a.ts"));
    assert_eq!(sent.new_segment_count(), 2);
    let mut round = PlaylistRound::new(URL);
    step(&mut dl, &mut round, RoundEvent::Response(200));
    let none: Option<&fn(&str) -> String> = None;
    assert_eq!(dl.take_playlist(&mut round, playlist(&["b.ts"]), none), fetch("b.ts"));
    assert_eq!(round.new_segment_count(), 1);
}

#[test]
fn a_playlist_is_read_only_after_a_success() {
    for status in [204u16, 301, 403, 503] {
        let mut round = PlaylistRound::new(URL);
        let action = downloader().download_playlist_segments(&mut round, RoundEvent::Response(status));
        assert_eq!(action == RoundAction::ReadContent, status == 204);
        assert_eq!(round.awaits(&RoundEvent::Content(String::new())), status == 204);
    }
}
