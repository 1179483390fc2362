use screc::links::{choose_segment_address, is_absolute_address, resolve_segment};
use screc::playlist::{find_init_uri, process_playlist, target_duration};
use screc::HlsDownloader;

const PLAYLIST_URL: &str = "https://media.example.com/live/1/playlist.m3u8?x=1";

#[test]
fn target_duration_of_a_playlist() {
    assert_eq!(target_duration("#EXTM3U\n#EXT-X-TARGETDURATION:4\n#EXTINF:4,\na.ts\n"), 4);
    assert_eq!(target_duration("#EXTM3U\r\n#EXT-X-TARGETDURATION:12\r\n"), 12);
}

#[test]
fn target_duration_defaults_to_six() {
    assert_eq!(target_duration(""), 6);
    assert_eq!(target_duration("#EXTM3U\n#EXTINF:4,\na.ts"), 6);
    assert_eq!(target_duration("#EXT-X-TARGETDURATION:\n"), 6);
    assert_eq!(target_duration(" #EXT-X-TARGETDURATION:3\n"), 6);
}

#[test]
fn target_duration_takes_the_first_number() {
    assert_eq!(target_duration("#EXT-X-TARGETDURATION:abc\n#EXT-X-TARGETDURATION:3\n#EXT-X-TARGETDURATION:9"), 3);
    assert_eq!(target_duration("#EXT-X-TARGETDURATION:4.5\n#EXT-X-TARGETDURATION:+8"), 8);
    assert_eq!(target_duration("#EXT-X-TARGETDURATION: 4\n#EXT-X-TARGETDURATION:007"), 7);
    assert_eq!(target_duration("#EXT-X-TARGETDURATION:-4\n#EXT-X-TARGETDURATION:+\n"), 6);
}

#[test]
fn target_duration_agrees_with_the_standard_parser() {
    for text in ["18446744073709551615", "18446744073709551616", "00018446744073709551615", "+0", "0", "1_0", "９", "99999999999999999999999"] {
        let expected = text.parse::<u64>().unwrap_or(6);
        assert_eq!(target_duration(&format!("#EXT-X-TARGETDURATION:{}\nx", text)), expected, "{}", text);
    }
}

#[test]
fn a_lone_carriage_return_ends_no_line() {
    assert_eq!(target_duration("a\r#EXT-X-TARGETDURATION:3\n"), 6);
    assert_eq!(target_duration("#EXT-X-TARGETDURATION:3\r"), 6);
    assert_eq!(target_duration("#EXT-X-TARGETDURATION:3\r\n"), 3);
    assert_eq!(target_duration("\n\n#EXT-X-TARGETDURATION:3"), 3);
}

#[test]
fn init_uri_is_the_quoted_one() {
    assert_eq!(find_init_uri("#EXTM3U\n#EXT-X-MAP:URI=\"init_0.mp4\"\n#EXTINF:2,\n"), Some("init_0.mp4".to_string()));
    assert_eq!(find_init_uri("#EXT-X-MAP:URI=\"初始.mp4\",BYTERANGE=\"1@0\"\r\n"), Some("初始.mp4".to_string()));
    assert_eq!(find_init_uri("#EXT-X-MAP:URI=\"\"\n"), Some("".to_string()));
    assert_eq!(find_init_uri("#EXT-X-MAP:URI=x,URI=\"y\"\n"), Some("y".to_string()));
}

#[test]
fn init_uri_is_missing() {
    assert_eq!(find_init_uri(""), None);
    assert_eq!(find_init_uri("#EXTM3U\n#EXTINF:2,\na.ts\n"), None);
    assert_eq!(find_init_uri("#EXT-X-MAP:BYTERANGE=\"1@0\",URI=\"a.mp4\"\n"), None);
    assert_eq!(find_init_uri("#EXT-X-MAP:URI=\"a.mp4\n"), None);
}

#[test]
fn only_the_first_map_line_counts() {
    assert_eq!(find_init_uri("#EXT-X-MAP:URI=a.mp4\n#EXT-X-MAP:URI=\"b.mp4\"\n"), None);
    assert_eq!(find_init_uri("#EXT-X-MAP:URI=\"a.mp4\"\n#EXT-X-MAP:URI=\"b.mp4\"\n"), Some("a.mp4".to_string()));
}

#[test]
fn absolute_addresses_begin_with_http() {
    assert!(is_absolute_address("http://a/b"));
    assert!(is_absolute_address("https://a/b"));
    assert!(is_absolute_address("httpfile.ts"));
    assert!(!is_absolute_address("HTTP://a/b"));
    assert!(!is_absolute_address("htt"));
    assert!(!is_absolute_address(""));
}

#[test]
fn segments_are_resolved_against_the_playlist() {
    assert_eq!(resolve_segment(PLAYLIST_URL, "seg 1.ts"), "https://media.example.com/live/1/seg%201.ts");
    assert_eq!(resolve_segment(PLAYLIST_URL, "/root.ts"), "https://media.example.com/root.ts");
    assert_eq!(resolve_segment(PLAYLIST_URL, "../2/a.ts?k=v"), "https://media.example.com/live/2/a.ts?k=v");
    assert_eq!(resolve_segment(PLAYLIST_URL, "http://other.example.com/a b.ts"), "http://other.example.com/a b.ts");
}

#[test]
fn a_reference_that_does_not_join_is_kept() {
    assert_eq!(resolve_segment(PLAYLIST_URL, "//[bad/a.ts"), "//[bad/a.ts");
    assert_eq!(resolve_segment("no address", "a.ts"), "a.ts");
    assert_eq!(choose_segment_address("a.ts", Ok("https://x/a.ts".to_string())), "https://x/a.ts");
    assert_eq!(choose_segment_address("a.ts", Err("bad".to_string())), "a.ts");
    assert_eq!(choose_segment_address("https://y/a.ts", Ok("https://x/a.ts".to_string())), "https://y/a.ts");
}

#[test]
fn init_segment_address() {
    let downloader = HlsDownloader::new("user".to_string());
    let relative = "#EXTM3U\n#EXT-X-MAP:URI=\"init.mp4\"\n";
    assert_eq!(
        downloader.extract_init_segment(relative, PLAYLIST_URL),
        Ok(Some("https://media.example.com/live/1/init.mp4".to_string()))
    );
    let absolute = "#EXT-X-MAP:URI=\"https://cdn.example.com/i.mp4\"\n";
    assert_eq!(
        downloader.extract_init_segment(absolute, "no address"),
        Ok(Some("https://cdn.example.com/i.mp4".to_string()))
    );
    assert_eq!(downloader.extract_init_segment("#EXTM3U\n", "no address"), Ok(None));
}

#[test]
fn init_segment_without_a_base() {
    let downloader = HlsDownloader::new("user".to_string());
    assert_eq!(
        downloader.extract_init_segment("#EXT-X-MAP:URI=\"init.mp4\"\n", "no address"),
        Err("relative URL without a base".to_string())
    );
    assert_eq!(
        downloader.extract_init_segment("#EXT-X-MAP:URI=\"//[bad\"\n", PLAYLIST_URL),
        Err("invalid IPv6 address".to_string())
    );
}

#[test]
fn the_processor_sees_the_whole_playlist() {
    let upper = |text: &str| -> String { text.to_uppercase() };
    assert_eq!(process_playlist("ab\nc".to_string(), Some(&upper)), "AB\nC");
    assert_eq!(process_playlist("ab\nc".to_string(), None::<&fn(&str) -> String>), "ab\nc");
}
