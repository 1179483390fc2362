//! Laws of reading a playlist: which target duration and which initialization segment a text
//! names.
use crate::downloader::HlsDownloader;
use crate::links::{
    choose_segment_address, is_absolute, is_absolute_address, joined_url, resolve_segment,
    segment_address,
};
use crate::playlist::{
    find_init_uri, first_init_uri, first_target_duration, is_processed, playlist_init_uri,
    playlist_target_duration, quoted_uri, target_duration,
};
use crate::text::{
    contains_text, decimal, first_occurrence, is_digit, is_first_char,
    is_first_occurrence, lemma_decimal_digits, lemma_first_char, lemma_first_occurrence, lines,
    occurs_at, parse_unsigned,
};
use crate::text_laws::{
    is_line, law_lines_end_at_line_feeds, law_numbers_are_read, law_other_texts_are_no_numbers,
    law_the_last_line_may_be_open, line_end, number_text,
};
use vstd::prelude::*;

verus! {

/// The lines, each with a line feed behind it.
pub open spec fn with_line_feeds(all: Seq<Seq<char>>) -> Seq<char>
    decreases all.len(),
{
    if all.len() == 0 {
        seq![]
    } else {
        all[0] + seq!['\n'] + with_line_feeds(all.skip(1))
    }
}

/// What the first line says decides, and else the rest.
proof fn lemma_first_line(line: Seq<char>, crlf: bool, rest: Seq<char>)
    requires
        is_line(line, crlf),
    ensures
        ({
            let all = lines(line + line_end(crlf) + rest);
            &&& all.len() > 0
            &&& all[0] == line
            &&& all.skip(1) == lines(rest)
        }),
{
    law_lines_end_at_line_feeds(line, crlf, rest);
    assert((seq![line] + lines(rest)).skip(1) =~= lines(rest));
}

proof fn lemma_number_is_a_line(plus: bool, leading: nat, n: nat, crlf: bool)
    ensures
        is_line("#EXT-X-TARGETDURATION:"@ + number_text(plus, leading, n), crlf),
        number_text(plus, leading, n).len() > 0,
        ("#EXT-X-TARGETDURATION:"@ + number_text(plus, leading, n)).skip(22) == number_text(
            plus,
            leading,
            n,
        ),
        "#EXT-X-TARGETDURATION:"@.is_prefix_of(
            "#EXT-X-TARGETDURATION:"@ + number_text(plus, leading, n),
        ),
        "#EXT-X-TARGETDURATION:"@.len() == 22,
{
    reveal_strlit("#EXT-X-TARGETDURATION:");
    let tag = "#EXT-X-TARGETDURATION:"@;
    let number = number_text(plus, leading, n);
    let line = tag + number;
    lemma_decimal_digits(n);
    assert forall|i: int| 0 <= i < number.len() implies number[i] != '\n' && number[i] != '\r' by {
        let signs: int = if plus {
            1
        } else {
            0
        };
        if i >= signs + leading {
            assert(number[i] == decimal(n)[i - signs - leading]);
            assert(is_digit(decimal(n)[i - signs - leading]));
        }
    }
    assert forall|i: int| 0 <= i < line.len() implies line[i] != '\n' by {
        if i >= 22 {
            assert(line[i] == number[i - 22]);
        }
    }
    assert(line.last() == number.last());
    assert(line.skip(22) =~= number);
}

/// The number behind the tag is the target duration, however it is written and whatever follows
/// its line, with and without an end of the line.
pub proof fn law_target_duration_is_the_number_given(
    plus: bool,
    leading: nat,
    n: nat,
    crlf: bool,
    rest: Seq<char>,
)
    requires
        n <= u64::MAX,
    ensures
        playlist_target_duration(
            "#EXT-X-TARGETDURATION:"@ + number_text(plus, leading, n) + line_end(crlf) + rest,
        ) == n,
        playlist_target_duration("#EXT-X-TARGETDURATION:"@ + number_text(plus, leading, n)) == n,
{
    let line = "#EXT-X-TARGETDURATION:"@ + number_text(plus, leading, n);
    lemma_number_is_a_line(plus, leading, n, crlf);
    law_numbers_are_read(plus, leading, n, u64::MAX as nat);
    lemma_first_line(line, crlf, rest);
    law_the_last_line_may_be_open(line);
}

/// The text behind the tag is no number that counts: it is empty or a plus sign alone, it holds
/// something else than digits, or the number is too large.
pub open spec fn is_no_duration(text: Seq<char>) -> bool {
    ||| text.len() == 0
    ||| text == seq!['+']
    ||| exists|i: int|
        0 <= i < text.len() && !('0' <= #[trigger] text[i] <= '9') && !(i == 0 && text[i] == '+')
    ||| exists|plus: bool, leading: nat, n: nat|
        n > u64::MAX && text == #[trigger] number_text(plus, leading, n)
}

/// A line that does not begin with the tag, or that has no number behind it, changes nothing: the
/// target duration is that of the rest.
pub proof fn law_lines_without_a_duration_are_skipped(line: Seq<char>, crlf: bool, rest: Seq<char>)
    requires
        is_line(line, crlf),
        "#EXT-X-TARGETDURATION:"@.is_prefix_of(line) ==> is_no_duration(line.skip(22)),
    ensures
        playlist_target_duration(line + line_end(crlf) + rest) == playlist_target_duration(rest),
{
    reveal_strlit("#EXT-X-TARGETDURATION:");
    lemma_first_line(line, crlf, rest);
    if "#EXT-X-TARGETDURATION:"@.is_prefix_of(line) {
        lemma_no_duration(line.skip(22));
    }
}

proof fn lemma_no_duration(text: Seq<char>)
    requires
        is_no_duration(text),
    ensures
        parse_unsigned(text, u64::MAX as nat) is None,
{
    if exists|plus: bool, leading: nat, n: nat|
        n > u64::MAX && text == #[trigger] number_text(plus, leading, n) {
        let (plus, leading, n) = choose|plus: bool, leading: nat, n: nat|
            n > u64::MAX && text == #[trigger] number_text(plus, leading, n);
        law_numbers_are_read(plus, leading, n, u64::MAX as nat);
    } else {
        law_other_texts_are_no_numbers(text, u64::MAX as nat);
    }
}

/// Where no line gives a target duration it is six seconds: of the empty text, and of a last line
/// without one.
pub proof fn law_target_duration_is_six_by_default(line: Seq<char>)
    requires
        !line.contains('\n'),
        "#EXT-X-TARGETDURATION:"@.is_prefix_of(line) ==> is_no_duration(line.skip(22)),
    ensures
        playlist_target_duration(line) == 6,
{
    reveal_strlit("#EXT-X-TARGETDURATION:");
    law_the_last_line_may_be_open(line);
    reveal_with_fuel(first_target_duration, 2);
    if line.len() > 0 {
        assert(lines(line).skip(1).len() == 0);
        if "#EXT-X-TARGETDURATION:"@.is_prefix_of(line) {
            lemma_no_duration(line.skip(22));
        }
    }
}

/// Before the first `URI=` with a quote there is no other one, not even one that reaches into it.
proof fn lemma_no_earlier_quote(before: Seq<char>, line: Seq<char>, j: int)
    requires
        !contains_text(before, "URI=\""@),
        before.len() + 5 <= line.len(),
        line.take(before.len() as int) == before,
        line.subrange(before.len() as int, before.len() as int + 5) == "URI=\""@,
        0 <= j < before.len(),
    ensures
        !occurs_at(line, "URI=\""@, j),
{
    reveal_strlit("URI=\"");
    let needle = "URI=\""@;
    let at: int = before.len() as int;
    if occurs_at(line, needle, j) {
        let found = line.subrange(j, j + 5);
        if j + 5 <= at {
            assert(before.subrange(j, j + 5) =~= line.take(at).subrange(j, j + 5));
            assert(line.take(at).subrange(j, j + 5) =~= found);
            assert(occurs_at(before, needle, j));
        } else {
            assert(found[4] == line[j + 4]);
            assert(line.subrange(at, at + 5)[j + 4 - at] == line[j + 4]);
            assert(needle[4] == '"');
            assert(needle[j + 4 - at] != '"');
        }
    }
}

proof fn lemma_first_quote(before: Seq<char>, line: Seq<char>)
    requires
        !contains_text(before, "URI=\""@),
        before.len() + 5 <= line.len(),
        line.take(before.len() as int) == before,
        line.subrange(before.len() as int, before.len() as int + 5) == "URI=\""@,
    ensures
        first_occurrence(line, "URI=\""@) == Some(before.len() as int),
        "URI=\""@.len() == 5,
{
    assert("URI=\""@.len() == 5) by {
        reveal_strlit("URI=\"");
    }
    let at: int = before.len() as int;
    assert forall|j: int| 0 <= j < at implies !occurs_at(line, "URI=\""@, j) by {
        lemma_no_earlier_quote(before, line, j);
    }
    assert(is_first_occurrence(line, "URI=\""@, at));
    lemma_first_occurrence(line, "URI=\""@, at);
}

/// What a line quotes is everything between the quotes behind its first `URI=` with a quote,
/// whatever characters that holds and whatever stands around it.
pub proof fn law_quoted_uri_is_what_stands_between_the_quotes(
    before: Seq<char>,
    uri: Seq<char>,
    behind: Seq<char>,
)
    requires
        !contains_text(before, "URI=\""@),
        !uri.contains('"'),
    ensures
        quoted_uri(before + "URI=\""@ + uri + seq!['"'] + behind) == Some(uri),
{
    let line = before + "URI=\""@ + uri + seq!['"'] + behind;
    assert("URI=\""@.len() == 5) by {
        reveal_strlit("URI=\"");
    }
    assert(line.take(before.len() as int) =~= before);
    assert(line.subrange(before.len() as int, before.len() as int + 5) =~= "URI=\""@);
    lemma_first_quote(before, line);
    let rest = line.skip(before.len() as int + 5);
    assert(rest =~= uri + seq!['"'] + behind);
    assert forall|j: int| 0 <= j < uri.len() implies rest[j] != '"' by {
        assert(uri.contains(uri[j]));
    }
    assert(is_first_char(rest, '"', uri.len() as int));
    lemma_first_char(rest, '"', uri.len() as int);
    assert(rest.take(uri.len() as int) =~= uri);
}

/// A line without `URI=` and a quote, and one where no quote follows, quotes nothing.
pub proof fn law_nothing_is_quoted_without_quotes(before: Seq<char>, open: Seq<char>)
    requires
        !contains_text(before, "URI=\""@),
        !open.contains('"'),
    ensures
        quoted_uri(before) is None,
        quoted_uri(before + "URI=\""@ + open) is None,
{
    assert forall|i: int| !is_first_occurrence(before, "URI=\""@, i) by {
        if is_first_occurrence(before, "URI=\""@, i) {
            assert(occurs_at(before, "URI=\""@, i));
        }
    }
    let line = before + "URI=\""@ + open;
    assert("URI=\""@.len() == 5) by {
        reveal_strlit("URI=\"");
    }
    assert(line.take(before.len() as int) =~= before);
    assert(line.subrange(before.len() as int, before.len() as int + 5) =~= "URI=\""@);
    lemma_first_quote(before, line);
    let rest = line.skip(before.len() as int + 5);
    assert(rest =~= open);
    assert forall|i: int| !is_first_char(rest, '"', i) by {
        if 0 <= i < rest.len() {
            assert(open.contains(open[i]));
        }
    }
}

proof fn lemma_map_line(uri: Seq<char>, behind: Seq<char>)
    requires
        !uri.contains('"'),
    ensures
        ({
            let line = "#EXT-X-MAP:URI=\""@ + uri + seq!['"'] + behind;
            &&& "#EXT-X-MAP:URI="@.is_prefix_of(line)
            &&& quoted_uri(line) == Some(uri)
        }),
{
    reveal_strlit("#EXT-X-MAP:URI=\"");
    reveal_strlit("#EXT-X-MAP:URI=");
    reveal_strlit("#EXT-X-MAP:");
    reveal_strlit("URI=\"");
    let line = "#EXT-X-MAP:URI=\""@ + uri + seq!['"'] + behind;
    let before = "#EXT-X-MAP:"@;
    assert forall|i: int| !occurs_at(before, "URI=\""@, i) by {
        if occurs_at(before, "URI=\""@, i) {
            assert(before.subrange(i, i + 5)[4] == before[i + 4]);
        }
    }
    assert("#EXT-X-MAP:URI=\""@ =~= before + "URI=\""@);
    law_quoted_uri_is_what_stands_between_the_quotes(before, uri, behind);
    assert(line.take(15) =~= "#EXT-X-MAP:URI="@);
    assert(line =~= before + "URI=\""@ + uri + seq!['"'] + behind);
}

/// The first map line names the initialization segment: everything between its quotes, whatever
/// lines without a map stand before it, whatever stands behind the quotes and whatever lines follow.
pub proof fn law_first_map_line_names_the_init_segment(
    earlier: Seq<Seq<char>>,
    uri: Seq<char>,
    behind: Seq<char>,
    crlf: bool,
    rest: Seq<char>,
)
    requires
        forall|i: int|
            0 <= i < earlier.len() ==> is_line(#[trigger] earlier[i], false)
                && !"#EXT-X-MAP:URI="@.is_prefix_of(earlier[i]),
        !uri.contains('"'),
        !uri.contains('\n'),
        is_line(behind, crlf),
    ensures
        ({
            let line = "#EXT-X-MAP:URI=\""@ + uri + seq!['"'] + behind;
            &&& playlist_init_uri(with_line_feeds(earlier) + line + line_end(crlf) + rest) == Some(
                uri,
            )
            &&& playlist_init_uri(with_line_feeds(earlier) + line) == Some(uri)
        }),
    decreases earlier.len(),
{
    let line = "#EXT-X-MAP:URI=\""@ + uri + seq!['"'] + behind;
    if earlier.len() == 0 {
        lemma_map_line(uri, behind);
        reveal_strlit("#EXT-X-MAP:URI=\"");
        assert forall|i: int| 0 <= i < line.len() implies line[i] != '\n' by {
            if i < 16 {
                assert(line[i] == "#EXT-X-MAP:URI=\""@[i]);
            } else if i < 16 + uri.len() {
                assert(line[i] == uri[i - 16]);
                assert(uri.contains(uri[i - 16]));
            } else if i > 16 + uri.len() {
                assert(line[i] == behind[i - 17 - uri.len()]);
                assert(behind.contains(behind[i - 17 - uri.len()]));
            }
        }
        assert(line.last() == if behind.len() > 0 {
            behind.last()
        } else {
            '"'
        });
        lemma_first_line(line, crlf, rest);
        law_the_last_line_may_be_open(line);
        assert(with_line_feeds(earlier) + line + line_end(crlf) + rest =~= line + line_end(crlf)
            + rest);
        assert(with_line_feeds(earlier) + line =~= line);
    } else {
        let later = earlier.skip(1);
        assert forall|i: int| 0 <= i < later.len() implies is_line(#[trigger] later[i], false)
            && !"#EXT-X-MAP:URI="@.is_prefix_of(later[i]) by {
            assert(later[i] == earlier[i + 1]);
        }
        law_first_map_line_names_the_init_segment(later, uri, behind, crlf, rest);
        let tail = with_line_feeds(later) + line + line_end(crlf) + rest;
        assert(with_line_feeds(earlier) + line + line_end(crlf) + rest =~= earlier[0] + line_end(
            false,
        ) + tail);
        law_lines_without_a_map_are_skipped(earlier[0], false, tail);
        let short = with_line_feeds(later) + line;
        assert(with_line_feeds(earlier) + line =~= earlier[0] + line_end(false) + short);
        law_lines_without_a_map_are_skipped(earlier[0], false, short);
    }
}

/// A line that does not begin with the map tag changes nothing: the initialization segment is that
/// of the rest.
pub proof fn law_lines_without_a_map_are_skipped(line: Seq<char>, crlf: bool, rest: Seq<char>)
    requires
        is_line(line, crlf),
        !"#EXT-X-MAP:URI="@.is_prefix_of(line),
    ensures
        playlist_init_uri(line + line_end(crlf) + rest) == playlist_init_uri(rest),
{
    lemma_first_line(line, crlf, rest);
}

/// Only the first map line counts: where it quotes nothing, no initialization segment is named,
/// whatever follows.
pub proof fn law_later_map_lines_do_not_count(
    before: Seq<char>,
    open: Seq<char>,
    crlf: bool,
    rest: Seq<char>,
)
    requires
        !contains_text(before, "URI=\""@),
        !open.contains('"'),
    ensures
        is_line(before, crlf) && "#EXT-X-MAP:URI="@.is_prefix_of(before) ==> playlist_init_uri(
            before + line_end(crlf) + rest,
        ) is None && playlist_init_uri(before) is None,
        is_line(before + "URI=\""@ + open, crlf) && "#EXT-X-MAP:URI="@.is_prefix_of(
            before + "URI=\""@ + open,
        ) ==> playlist_init_uri(before + "URI=\""@ + open + line_end(crlf) + rest) is None
            && playlist_init_uri(before + "URI=\""@ + open) is None,
{
    law_nothing_is_quoted_without_quotes(before, open);
    reveal_strlit("#EXT-X-MAP:URI=");
    let line = before + "URI=\""@ + open;
    if is_line(before, crlf) && "#EXT-X-MAP:URI="@.is_prefix_of(before) {
        lemma_first_line(before, crlf, rest);
        law_the_last_line_may_be_open(before);
    }
    if is_line(line, crlf) && "#EXT-X-MAP:URI="@.is_prefix_of(line) {
        lemma_first_line(line, crlf, rest);
        law_the_last_line_may_be_open(line);
    }
}

/// A text of one line that does not begin with the map tag names no initialization segment.
pub proof fn law_no_map_line_names_no_init_segment(line: Seq<char>)
    requires
        !line.contains('\n'),
        !"#EXT-X-MAP:URI="@.is_prefix_of(line),
    ensures
        playlist_init_uri(line) is None,
{
    law_the_last_line_may_be_open(line);
    reveal_with_fuel(first_init_uri, 2);
    if line.len() > 0 {
        assert(lines(line).skip(1).len() == 0);
    }
}

/// An address is taken as it stands exactly if its first four characters are `http`.
pub proof fn law_absolute_addresses_begin_with_http(uri: Seq<char>)
    ensures
        is_absolute(uri) <==> uri.len() >= 4 && uri[0] == 'h' && uri[1] == 't' && uri[2] == 't'
            && uri[3] == 'p',
{
    reveal_strlit("http");
    if uri.len() >= 4 && uri[0] == 'h' && uri[1] == 't' && uri[2] == 't' && uri[3] == 'p' {
        assert("http"@ =~= uri.subrange(0, 4));
    }
    if is_absolute(uri) {
        let front = uri.subrange(0, 4);
        assert("http"@ == front);
        assert(front[0] == uri[0] && front[1] == uri[1] && front[2] == uri[2] && front[3] == uri[3]);
    }
}

/// A segment is fetched from its own address where that begins with `http`, else from the joined
/// address, and from its URI as it stands where joining failed.
pub proof fn law_segment_addresses(uri: Seq<char>, joined: Result<Seq<char>, Seq<char>>)
    ensures
        uri.len() >= 4 && uri.take(4) == seq!['h', 't', 't', 'p'] ==> segment_address(uri, joined)
            == uri,
        !(uri.len() >= 4 && uri.take(4) == seq!['h', 't', 't', 'p']) ==> segment_address(uri, joined)
            == match joined {
            Ok(address) => address,
            Err(_) => uri,
        },
{
    law_absolute_addresses_begin_with_http(uri);
    if uri.len() >= 4 {
        assert(uri.take(4)[0] == uri[0] && uri.take(4)[1] == uri[1] && uri.take(4)[2] == uri[2]
            && uri.take(4)[3] == uri[3]);
        if is_absolute(uri) {
            assert(uri.take(4) =~= seq!['h', 't', 't', 'p']);
        }
    }
}

/// Without a processor a text stays as it is; with one it becomes something that the processor can
/// give for just this text.
pub proof fn law_processed_texts<F: Fn(&str) -> String>(
    f: &F,
    content: Seq<char>,
    processed: String,
)
    ensures
        is_processed::<F>(None, content, processed) <==> processed@ == content,
        is_processed(Some(f), content, processed) ==> exists|text: &str|
            text@ == content && call_ensures(*f, (text,), processed),
{
}

/// What is read from a text is what the text says: the target duration and the URI of the
/// initialization segment, character for character.
pub proof fn law_playlists_are_read(content: &str, seconds: u64, uri: Option<String>)
    requires
        call_ensures(target_duration, (content,), seconds),
        call_ensures(find_init_uri, (content,), uri),
    ensures
        seconds == playlist_target_duration(content@),
        uri is None <==> playlist_init_uri(content@) is None,
        uri matches Some(text) ==> playlist_init_uri(content@) == Some(text@),
{
}

/// The initialization segment that a text names is fetched from its URI where that begins with
/// `http`, else from the address that joining gives; an address that does not join is an error with
/// the message that joining gave.
pub proof fn law_init_segment_addresses(
    downloader: &HlsDownloader,
    content: &str,
    playlist_url: &str,
    address: Result<Option<String>, String>,
)
    requires
        call_ensures(
            HlsDownloader::extract_init_segment,
            (downloader, content, playlist_url),
            address,
        ),
    ensures
        match playlist_init_uri(content@) {
            None => address == Ok::<Option<String>, String>(None),
            Some(uri) => if uri.len() >= 4 && uri.take(4) == seq!['h', 't', 't', 'p'] {
                address matches Ok(Some(text)) && text@ == uri
            } else {
                match joined_url(playlist_url@, uri) {
                    Ok(joined) => address matches Ok(Some(text)) && text@ == joined,
                    Err(error) => address matches Err(message) && message@ == error,
                }
            },
        },
{
    if let Some(uri) = playlist_init_uri(content@) {
        law_absolute_addresses_begin_with_http(uri);
        if uri.len() >= 4 {
            let front = uri.take(4);
            assert(front[0] == uri[0] && front[1] == uri[1] && front[2] == uri[2] && front[3]
                == uri[3]);
            if is_absolute(uri) {
                assert(front =~= seq!['h', 't', 't', 'p']);
            }
        }
    }
}

/// The address of a segment: its URI where that begins with `http`, else the joined address, else
/// the URI as it stands.
pub proof fn law_segments_are_fetched_from(
    playlist_url: &str,
    uri: &str,
    address: String,
    joined: Result<String, String>,
    chosen: String,
    absolute: bool,
)
    requires
        call_ensures(resolve_segment, (playlist_url, uri), address),
        call_ensures(choose_segment_address, (uri, joined), chosen),
        call_ensures(is_absolute_address, (uri,), absolute),
    ensures
        ({
            let http = uri@.len() >= 4 && uri@.take(4) == seq!['h', 't', 't', 'p'];
            &&& absolute == http
            &&& http ==> address@ == uri@ && chosen@ == uri@
            &&& !http ==> match joined_url(playlist_url@, uri@) {
                Ok(text) => address@ == text,
                Err(_) => address@ == uri@,
            }
            &&& !http ==> match joined {
                Ok(text) => chosen@ == text@,
                Err(_) => chosen@ == uri@,
            }
        }),
{
    law_segment_addresses(uri@, joined_url(playlist_url@, uri@));
    law_segment_addresses(
        uri@,
        match joined {
            Ok(text) => Ok::<Seq<char>, Seq<char>>(text@),
            Err(text) => Err::<Seq<char>, Seq<char>>(text@),
        },
    );
    law_absolute_addresses_begin_with_http(uri@);
    if uri@.len() >= 4 {
        let front = uri@.take(4);
        assert(front[0] == uri@[0] && front[1] == uri@[1] && front[2] == uri@[2] && front[3]
            == uri@[3]);
        if is_absolute(uri@) {
            assert(front =~= seq!['h', 't', 't', 'p']);
        }
    }
}

} // verus!
