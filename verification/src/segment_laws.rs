//! Laws of fetching a segment: which replies are taken for a segment, what an error says, and how
//! often a fetch is tried.
use crate::segment::{
    check_segment_body, check_segment_headers, is_forbidden_message, is_html, says_forbidden, Retry,
    RetryStep, SegmentError, SegmentHeaders,
};
use crate::text::{ascii_lower, ascii_lower_text, decimal, occurs_at};
use crate::text_laws::{
    law_numbers_are_read, law_other_texts_are_no_numbers, law_texts_contain_their_parts,
    law_what_is_contained_is_a_part, number_text,
};
use vstd::prelude::*;

verus! {

/// At this position the text reads `text/html`, in small or capital letters.
pub open spec fn reads_text_html(text: Seq<char>, i: int) -> bool {
    &&& 0 <= i <= text.len() - 9
    &&& text[i] == 't' || text[i] == 'T'
    &&& text[i + 1] == 'e' || text[i + 1] == 'E'
    &&& text[i + 2] == 'x' || text[i + 2] == 'X'
    &&& text[i + 3] == 't' || text[i + 3] == 'T'
    &&& text[i + 4] == '/'
    &&& text[i + 5] == 'h' || text[i + 5] == 'H'
    &&& text[i + 6] == 't' || text[i + 6] == 'T'
    &&& text[i + 7] == 'm' || text[i + 7] == 'M'
    &&& text[i + 8] == 'l' || text[i + 8] == 'L'
}

/// The content type says that the reply is a web page.
pub open spec fn says_html(content_type: Option<String>) -> bool {
    content_type matches Some(text) && exists|i: int| reads_text_html(text@, i)
}

proof fn lemma_reads_text_html(text: Seq<char>, i: int)
    ensures
        occurs_at(ascii_lower_text(text), "text/html"@, i) <==> reads_text_html(text, i),
{
    reveal_strlit("text/html");
    let lower = ascii_lower_text(text);
    if 0 <= i <= text.len() - 9 {
        let part = lower.subrange(i, i + 9);
        assert forall|k: int| 0 <= k < 9 implies #[trigger] part[k] == ascii_lower(text[i + k]) by {
        }
        assert(part[0] == ascii_lower(text[i]));
        assert(part[1] == ascii_lower(text[i + 1]));
        assert(part[2] == ascii_lower(text[i + 2]));
        assert(part[3] == ascii_lower(text[i + 3]));
        assert(part[4] == ascii_lower(text[i + 4]));
        assert(part[5] == ascii_lower(text[i + 5]));
        assert(part[6] == ascii_lower(text[i + 6]));
        assert(part[7] == ascii_lower(text[i + 7]));
        assert(part[8] == ascii_lower(text[i + 8]));
        if reads_text_html(text, i) {
            assert(part =~= "text/html"@);
        }
        if part == "text/html"@ {
            assert(reads_text_html(text, i));
        }
    }
}

/// A reply is a web page exactly if its content type reads `text/html` somewhere, in small or
/// capital letters.
pub proof fn law_web_pages_say_text_html(content_type: Option<String>)
    ensures
        is_html(content_type) <==> says_html(content_type),
{
    if let Some(text) = content_type {
        if is_html(content_type) {
            let i = choose|i: int| occurs_at(ascii_lower_text(text@), "text/html"@, i);
            lemma_reads_text_html(text@, i);
        }
        if says_html(content_type) {
            let i = choose|i: int| reads_text_html(text@, i);
            lemma_reads_text_html(text@, i);
        }
    }
}

/// Only a reply with status 200 that is no web page can be a segment. Every other status gives its
/// own error, whatever the headers say.
pub proof fn law_only_good_replies_are_segments(
    headers: SegmentHeaders,
    checked: Result<Option<usize>, SegmentError>,
)
    requires
        call_ensures(check_segment_headers, (&headers,), checked),
    ensures
        checked is Ok <==> headers.status == 200 && !says_html(headers.content_type),
        headers.status == 200 && says_html(headers.content_type) ==> checked->Err_0
            == SegmentError::Html,
        headers.status == 418 ==> checked->Err_0 == SegmentError::NotReady,
        headers.status == 404 ==> checked->Err_0 == SegmentError::NotFound,
        headers.status == 403 ==> checked->Err_0 == SegmentError::Forbidden,
        headers.status == 429 ==> checked->Err_0 == SegmentError::TooManyRequests,
        headers.status != 200 && headers.status != 418 && headers.status != 404 && headers.status
            != 403 && headers.status != 429 ==> checked->Err_0 == SegmentError::Status(
            headers.status,
        ),
{
    law_web_pages_say_text_html(headers.content_type);
}

/// The length that the server announces is the one that is asked of the body, however the number is
/// written.
pub proof fn law_announced_length_is_asked_for(
    headers: SegmentHeaders,
    checked: Result<Option<usize>, SegmentError>,
    text: String,
    plus: bool,
    leading: nat,
    n: nat,
)
    requires
        call_ensures(check_segment_headers, (&headers,), checked),
        headers.status == 200,
        !says_html(headers.content_type),
        headers.content_length == Some(text),
        text@ == number_text(plus, leading, n),
        n <= usize::MAX,
    ensures
        checked == Ok::<Option<usize>, SegmentError>(Some(n as usize)),
{
    law_web_pages_say_text_html(headers.content_type);
    law_numbers_are_read(plus, leading, n, usize::MAX as nat);
}

/// Where the server announces no length, or none that can be read, none is asked of the body.
pub proof fn law_no_length_is_made_up(
    headers: SegmentHeaders,
    checked: Result<Option<usize>, SegmentError>,
)
    requires
        call_ensures(check_segment_headers, (&headers,), checked),
        headers.status == 200,
        !says_html(headers.content_type),
        headers.content_length matches Some(text) ==> {
            ||| text@.len() == 0
            ||| text@ == seq!['+']
            ||| exists|i: int|
                0 <= i < text@.len() && !('0' <= #[trigger] text@[i] <= '9') && !(i == 0 && text@[i]
                    == '+')
            ||| exists|plus: bool, leading: nat, n: nat|
                n > usize::MAX && text@ == #[trigger] number_text(plus, leading, n)
        },
    ensures
        checked == Ok::<Option<usize>, SegmentError>(None),
{
    law_web_pages_say_text_html(headers.content_type);
    if let Some(text) = headers.content_length {
        if exists|plus: bool, leading: nat, n: nat|
            n > usize::MAX && text@ == #[trigger] number_text(plus, leading, n) {
            let (plus, leading, n) = choose|plus: bool, leading: nat, n: nat|
                n > usize::MAX && text@ == #[trigger] number_text(plus, leading, n);
            law_numbers_are_read(plus, leading, n, usize::MAX as nat);
        } else {
            law_other_texts_are_no_numbers(text@, usize::MAX as nat);
        }
    }
}

/// A body is a segment exactly if it has 128 bytes or more, and as many as were asked for; it is
/// then handed on as it is. Else the error says what is wrong with it.
pub proof fn law_only_whole_bodies_are_segments(
    expected: Option<usize>,
    body: Vec<u8>,
    checked: Result<Vec<u8>, SegmentError>,
)
    requires
        call_ensures(check_segment_body, (expected, body), checked),
    ensures
        checked is Ok <==> body@.len() >= 128 && (expected is Some ==> expected->0 == body@.len()),
        checked is Ok ==> checked->Ok_0@ == body@,
        body@.len() == 0 ==> checked->Err_0 == SegmentError::Empty,
        0 < body@.len() < 128 ==> checked->Err_0 == SegmentError::TooSmall(body@.len() as usize),
        body@.len() >= 128 && expected is Some && expected->0 != body@.len() ==> checked->Err_0
            == (SegmentError::Incomplete { expected: expected->0, actual: body@.len() as usize }),
{
}

/// A reply with an announced length is taken for a segment only if all of it came.
pub proof fn law_cut_replies_are_refused(
    headers: SegmentHeaders,
    text: String,
    n: nat,
    checked: Result<Option<usize>, SegmentError>,
    body: Vec<u8>,
    taken: Result<Vec<u8>, SegmentError>,
)
    requires
        call_ensures(check_segment_headers, (&headers,), checked),
        headers.status == 200,
        !says_html(headers.content_type),
        headers.content_length == Some(text),
        text@ == decimal(n),
        n <= usize::MAX,
        call_ensures(check_segment_body, (checked->Ok_0, body), taken),
    ensures
        checked == Ok::<Option<usize>, SegmentError>(Some(n as usize)),
        taken is Ok <==> body@.len() == n && n >= 128,
        taken is Ok ==> taken->Ok_0@ == body@,
{
    assert(text@ =~= number_text(false, 0, n));
    law_announced_length_is_asked_for(headers, checked, text, false, 0, n);
    law_only_whole_bodies_are_segments(checked->Ok_0, body, taken);
}

/// A message says that the segment is refused exactly if `403_FORBIDDEN` is a part of it.
pub proof fn law_refusals_are_named(message: &str, forbidden: bool)
    requires
        call_ensures(is_forbidden_message, (message,), forbidden),
    ensures
        forbidden <==> exists|before: Seq<char>, behind: Seq<char>|
            message@ == #[trigger] (before + "403_FORBIDDEN"@ + behind),
{
    law_refusals_say_403_forbidden(message@);
}

/// A text says that the segment is refused exactly if `403_FORBIDDEN` is a part of it.
pub proof fn law_refusals_say_403_forbidden(message: Seq<char>)
    ensures
        says_forbidden(message) <==> exists|before: Seq<char>, behind: Seq<char>|
            message == #[trigger] (before + "403_FORBIDDEN"@ + behind),
{
    if says_forbidden(message) {
        law_what_is_contained_is_a_part(message, "403_FORBIDDEN"@);
    }
    if exists|before: Seq<char>, behind: Seq<char>|
        message == #[trigger] (before + "403_FORBIDDEN"@ + behind) {
        let (before, behind) = choose|before: Seq<char>, behind: Seq<char>|
            message == #[trigger] (before + "403_FORBIDDEN"@ + behind);
        law_texts_contain_their_parts(before, "403_FORBIDDEN"@, behind);
    }
}

/// An error's text gives the numbers that the error holds, and a transport error's text is the
/// message that came with it.
pub proof fn law_errors_say_what_is_wrong(error: SegmentError, message: String)
    requires
        call_ensures(SegmentError::message, (&error,), message),
    ensures
        match error {
            SegmentError::NotReady => message@ == "分片尚未就绪 (418)"@,
            SegmentError::NotFound => message@ == "404_NOT_FOUND"@,
            SegmentError::Forbidden => message@ == "403_FORBIDDEN"@,
            SegmentError::TooManyRequests => message@ == "请求过于频繁 (429)"@,
            SegmentError::Status(code) => message@ == "下载分片失败: "@ + decimal(code as nat),
            SegmentError::Html => message@ == "分片返回了 HTML 而非视频数据"@,
            SegmentError::Empty => message@ == "分片下载数据为空"@,
            SegmentError::TooSmall(actual) => message@ == "分片数据过小: "@ + decimal(actual as nat)
                + " 字节"@,
            SegmentError::Incomplete { expected, actual } => message@ == "分片数据不完整: 期望 "@
                + decimal(expected as nat) + " 字节，实际 "@ + decimal(actual as nat) + " 字节"@,
            SegmentError::TimedOut => message@ == "分片下载超时 ("@ + decimal(30) + "秒)"@,
            SegmentError::Transport(text) => message@ == text@,
        },
{
}

/// An attempt that succeeds gives its data, whichever it is. The first failed attempt is followed
/// by half a second, the second by a second, and the third by its own error.
pub proof fn law_each_attempt_counts(result: Result<Vec<u8>, SegmentError>, step: RetryStep)
    ensures
        forall|retry: &mut Retry| #[trigger]
            call_ensures(Retry::after_attempt, (retry, result), step) && (*retry)@ < 3 ==> {
                &&& result matches Ok(data) ==> step == RetryStep::Succeed(data) && (*final(retry))@
                    == (*retry)@
                &&& result matches Err(error) ==> {
                    &&& (*retry)@ == 0 ==> step == RetryStep::RetryAfter(500)
                    &&& (*retry)@ == 1 ==> step == RetryStep::RetryAfter(1000)
                    &&& (*retry)@ == 2 ==> step == RetryStep::Fail(error)
                    &&& (*final(retry))@ == (*retry)@ + 1
                }
            },
        forall|fresh: Retry| #[trigger] call_ensures(Retry::new, (), fresh) ==> fresh@ == 0,
{
}

} // verus!
