//! Reading a media playlist: its target duration, its initialization segment and its segments.
use crate::text::{chars_of, find_char, find_text, line_ranges, read_unsigned, starts_with};
#[allow(unused_imports)]
use crate::text::{first_char, first_occurrence, lines, parse_unsigned};
use vstd::prelude::*;
use vstd::slice::slice_subrange;

verus! {

/// The target duration, in seconds, of a playlist that does not give one.
pub const DEFAULT_TARGET_DURATION: u64 = 6;

/// A playlist as far as the downloader reads it: the URIs of its media segments in their order,
/// or the fact that it is a master playlist.
#[derive(Debug)]
pub enum Playlist {
    Media(Vec<String>),
    Master,
}

pub enum PlaylistView {
    Media(Seq<Seq<char>>),
    Master,
}

impl View for Playlist {
    type V = PlaylistView;

    open spec fn view(&self) -> PlaylistView {
        match self {
            Playlist::Media(uris) => PlaylistView::Media(uris@.map_values(|uri: String| uri@)),
            Playlist::Master => PlaylistView::Master,
        }
    }
}

pub open spec fn playlist_result(
    result: Result<Playlist, String>,
) -> Result<PlaylistView, Seq<char>> {
    match result {
        Ok(playlist) => Ok(playlist@),
        Err(error) => Err(error@),
    }
}

/// What the `m3u8_rs` crate reads from the bytes of a playlist: the URIs of the media segments,
/// a master playlist, or the debug text of the error.
pub uninterp spec fn parsed_playlist(bytes: Seq<u8>) -> Result<PlaylistView, Seq<char>>;

/// Calls `m3u8_rs::parse_playlist_res`. Believed of it: what it gives, taken as the kind of
/// playlist with the segments' URIs or as the error's debug text, depends on the bytes alone.
/// The grammar of playlists is left to the `m3u8_rs` crate.
#[verifier::external_body]
pub(crate) fn parse_playlist(content: &[u8]) -> (parsed: Result<Playlist, String>)
    ensures
        playlist_result(parsed) == parsed_playlist(content@),
{
    match m3u8_rs::parse_playlist_res(content) {
        Ok(m3u8_rs::Playlist::MediaPlaylist(media)) => {
            Ok(Playlist::Media(media.segments.into_iter().map(|segment| segment.uri).collect()))
        }
        Ok(m3u8_rs::Playlist::MasterPlaylist(_)) => Ok(Playlist::Master),
        Err(error) => Err(format!("{:?}", error)),
    }
}

/// The target duration that one line gives.
pub open spec fn line_target_duration(line: Seq<char>) -> Option<nat> {
    if "#EXT-X-TARGETDURATION:"@.is_prefix_of(line) {
        parse_unsigned(line.skip("#EXT-X-TARGETDURATION:"@.len() as int), u64::MAX as nat)
    } else {
        None
    }
}

/// The target duration of the first line that gives one.
pub open spec fn first_target_duration(all: Seq<Seq<char>>) -> Option<nat>
    decreases all.len(),
{
    if all.len() == 0 {
        None
    } else {
        match line_target_duration(all[0]) {
            Some(seconds) => Some(seconds),
            None => first_target_duration(all.skip(1)),
        }
    }
}

/// The target duration of a playlist, in seconds.
pub open spec fn playlist_target_duration(content: Seq<char>) -> nat {
    match first_target_duration(lines(content)) {
        Some(seconds) => seconds,
        None => DEFAULT_TARGET_DURATION as nat,
    }
}

/// The line names an initialization segment.
pub open spec fn is_map_line(line: Seq<char>) -> bool {
    "#EXT-X-MAP:URI="@.is_prefix_of(line)
}

/// What stands between the quotes behind the first `URI=` that a quote follows.
pub open spec fn quoted_uri(line: Seq<char>) -> Option<Seq<char>> {
    match first_occurrence(line, "URI=\""@) {
        Some(start) => {
            let rest = line.skip(start + "URI=\""@.len());
            match first_char(rest, '"') {
                Some(end) => Some(rest.take(end)),
                None => None,
            }
        },
        None => None,
    }
}

/// The URI of the initialization segment: the quoted URI of the first line that names one. Later
/// lines are not looked at, even where the first holds no quoted URI.
pub open spec fn first_init_uri(all: Seq<Seq<char>>) -> Option<Seq<char>>
    decreases all.len(),
{
    if all.len() == 0 {
        None
    } else if is_map_line(all[0]) {
        quoted_uri(all[0])
    } else {
        first_init_uri(all.skip(1))
    }
}

/// The URI of a playlist's initialization segment.
pub open spec fn playlist_init_uri(content: Seq<char>) -> Option<Seq<char>> {
    first_init_uri(lines(content))
}

/// The text that an optional `String` holds.
pub open spec fn optional_text(text: Option<String>) -> Option<Seq<char>> {
    match text {
        Some(inner) => Some(inner@),
        None => None,
    }
}

/// The playlist's target duration in seconds: the number on the first `#EXT-X-TARGETDURATION:`
/// line that holds one.
pub fn target_duration(content: &str) -> (seconds: u64)
    ensures
        seconds == playlist_target_duration(content@),
{
    let chars: Vec<char> = chars_of(content);
    let text: &[char] = chars.as_slice();
    let ranges: Vec<(usize, usize)> = line_ranges(text);
    let ghost all = lines(content@);
    let prefix_len: usize = 22;
    proof {
        reveal_strlit("#EXT-X-TARGETDURATION:");
        assert(all.skip(0) =~= all);
    }
    let mut k: usize = 0;
    while k < ranges.len()
        invariant
            k <= ranges@.len(),
            all == lines(content@),
            text@ == content@,
            ranges@.len() == all.len(),
            prefix_len == "#EXT-X-TARGETDURATION:"@.len(),
            forall|j: int|
                0 <= j < ranges@.len() ==> {
                    &&& (#[trigger] ranges@[j]).0 <= ranges@[j].1 <= text@.len()
                    &&& text@.subrange(ranges@[j].0 as int, ranges@[j].1 as int) == all[j]
                },
            first_target_duration(all) == first_target_duration(all.skip(k as int)),
        decreases ranges@.len() - k,
    {
        let (from, to): (usize, usize) = ranges[k];
        let line: &[char] = slice_subrange(text, from, to);
        assert(line@ == all[k as int]);
        assert(all.skip(k as int)[0] == all[k as int]);
        assert(all.skip(k as int).skip(1) =~= all.skip(k + 1));
        if starts_with(line, "#EXT-X-TARGETDURATION:") {
            let number: &[char] = slice_subrange(line, prefix_len, line.len());
            assert(number@ =~= all[k as int].skip(prefix_len as int));
            if let Some(seconds) = read_unsigned(number, u64::MAX) {
                return seconds;
            }
        }
        k = k + 1;
    }
    DEFAULT_TARGET_DURATION
}

/// The positions of the text between the quotes of `URI="..."` in a line.
fn quoted_uri_range(line: &[char]) -> (range: Option<(usize, usize)>)
    ensures
        match range {
            Some((from, to)) => {
                &&& from <= to <= line@.len()
                &&& quoted_uri(line@) == Some(line@.subrange(from as int, to as int))
            },
            None => quoted_uri(line@) is None,
        },
{
    proof {
        reveal_strlit("URI=\"");
    }
    let length: usize = line.len();
    match find_text(line, "URI=\"") {
        Some(start) => {
            assert(start + 5 <= length);
            let from: usize = start + 5;
            let rest: &[char] = slice_subrange(line, from, length);
            assert(rest@ =~= line@.skip(from as int));
            match find_char(rest, '"') {
                Some(end) => {
                    assert(rest@.take(end as int) =~= line@.subrange(from as int, from + end));
                    Some((from, from + end))
                },
                None => None,
            }
        },
        None => None,
    }
}

/// The quoted URI of the line that stands between two positions of the text.
fn quoted_uri_between(content: &str, text: &[char], from: usize, to: usize) -> (uri: Option<String>)
    requires
        text@ == content@,
        from <= to <= text@.len(),
    ensures
        optional_text(uri) == quoted_uri(content@.subrange(from as int, to as int)),
{
    let length: usize = text.len();
    let line: &[char] = slice_subrange(text, from, to);
    match quoted_uri_range(line) {
        Some((start, end)) => {
            let uri: String = content.substring_char(from + start, from + end).to_string();
            assert(uri@ =~= line@.subrange(start as int, end as int));
            Some(uri)
        },
        None => None,
    }
}

/// The URI of the playlist's initialization segment.
pub fn find_init_uri(content: &str) -> (uri: Option<String>)
    ensures
        optional_text(uri) == playlist_init_uri(content@),
{
    let chars: Vec<char> = chars_of(content);
    let text: &[char] = chars.as_slice();
    let ranges: Vec<(usize, usize)> = line_ranges(text);
    let ghost all = lines(content@);
    proof {
        assert(all.skip(0) =~= all);
    }
    let mut k: usize = 0;
    while k < ranges.len()
        invariant
            k <= ranges@.len(),
            all == lines(content@),
            text@ == content@,
            ranges@.len() == all.len(),
            forall|j: int|
                0 <= j < ranges@.len() ==> {
                    &&& (#[trigger] ranges@[j]).0 <= ranges@[j].1 <= text@.len()
                    &&& text@.subrange(ranges@[j].0 as int, ranges@[j].1 as int) == all[j]
                },
            first_init_uri(all) == first_init_uri(all.skip(k as int)),
        decreases ranges@.len() - k,
    {
        let (from, to): (usize, usize) = ranges[k];
        let line: &[char] = slice_subrange(text, from, to);
        assert(line@ == all[k as int]);
        assert(all.skip(k as int)[0] == all[k as int]);
        assert(all.skip(k as int).skip(1) =~= all.skip(k + 1));
        if starts_with(line, "#EXT-X-MAP:URI=") {
            return quoted_uri_between(content, text, from, to);
        }
        k = k + 1;
    }
    None
}

/// The processor, where there is one, can make `processed` of a text; without one the text stays as
/// it is.
pub open spec fn is_processed<F: Fn(&str) -> String>(
    processor: Option<&F>,
    content: Seq<char>,
    processed: String,
) -> bool {
    match processor {
        Some(f) => exists|text: &str|
            text@ == content && call_ensures(*f, (text,), processed),
        None => processed@ == content,
    }
}

/// The processor makes one text of each text: `g` says which.
pub open spec fn computes<F: Fn(&str) -> String>(
    f: F,
    g: spec_fn(Seq<char>) -> Seq<char>,
) -> bool {
    forall|text: &str, processed: String| #[trigger]
        call_ensures(f, (text,), processed) ==> processed@ == g(text@)
}

/// The playlist's text after the caller's processor, where there is one.
pub fn process_playlist<F: Fn(&str) -> String>(
    content: String,
    processor: Option<&F>,
) -> (processed: String)
    requires
        processor matches Some(f) ==> forall|text: &str|
            text@ == content@ ==> call_requires(*f, (text,)),
    ensures
        is_processed(processor, content@, processed),
{
    match processor {
        Some(f) => f(content.as_str()),
        None => content,
    }
}

} // verus!
