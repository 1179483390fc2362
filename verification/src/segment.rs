//! Fetching one segment: which replies count as a segment, and how often a fetch is tried.
#[allow(unused_imports)]
use crate::text::{
    ascii_lower_text, contains_text, decimal, lemma_decimal_digits, occurs_at, parse_unsigned,
};
use crate::text::{chars_of, lower_text_contains, push_decimal, read_unsigned, text_contains};
use vstd::prelude::*;

verus! {

/// The least number of bytes that a segment has.
pub const MIN_SEGMENT_SIZE: usize = 128;

/// How long one attempt to fetch a segment may take, in seconds.
pub const SEGMENT_DOWNLOAD_TIMEOUT_SECS: u64 = 30;

/// How often a segment is fetched before it counts as failed.
pub const MAX_RETRIES: u32 = 3;

/// Why a segment was not fetched.
#[derive(Debug, PartialEq)]
pub enum SegmentError {
    NotReady,
    NotFound,
    Forbidden,
    TooManyRequests,
    Status(u16),
    Html,
    Empty,
    TooSmall(usize),
    Incomplete { expected: usize, actual: usize },
    TimedOut,
    Transport(String),
}

/// What the server says of a segment before its body: the status code, and the two headers that
/// are looked at, where they are there and are readable text.
#[derive(Debug)]
pub struct SegmentHeaders {
    pub status: u16,
    pub content_type: Option<String>,
    pub content_length: Option<String>,
}

/// The error that a status code stands for.
pub open spec fn status_error(status: u16) -> Option<SegmentError> {
    if status == 200 {
        None
    } else if status == 418 {
        Some(SegmentError::NotReady)
    } else if status == 404 {
        Some(SegmentError::NotFound)
    } else if status == 403 {
        Some(SegmentError::Forbidden)
    } else if status == 429 {
        Some(SegmentError::TooManyRequests)
    } else {
        Some(SegmentError::Status(status))
    }
}

/// The reply is a web page. Upper-case letters count as lower-case ones; no character outside ASCII
/// has a lower-case form with a letter of `text/html`, so only ASCII letters are looked at.
pub open spec fn is_html(content_type: Option<String>) -> bool {
    content_type matches Some(text) && contains_text(ascii_lower_text(text@), "text/html"@)
}

/// The length that the server announced, where it is a number.
pub open spec fn announced_length(content_length: Option<String>) -> Option<nat> {
    match content_length {
        Some(text) => parse_unsigned(text@, usize::MAX as nat),
        None => None,
    }
}

/// Why a body of `actual` bytes is no segment, where `expected` bytes were announced.
pub open spec fn body_error(expected: Option<usize>, actual: usize) -> Option<SegmentError> {
    if actual == 0 {
        Some(SegmentError::Empty)
    } else if actual < MIN_SEGMENT_SIZE {
        Some(SegmentError::TooSmall(actual))
    } else if expected is Some && expected->0 != actual {
        Some(SegmentError::Incomplete { expected: expected->0, actual })
    } else {
        None
    }
}

impl SegmentError {
    /// The error's text.
    pub open spec fn text(&self) -> Seq<char> {
        match self {
            SegmentError::NotReady => "分片尚未就绪 (418)"@,
            SegmentError::NotFound => "404_NOT_FOUND"@,
            SegmentError::Forbidden => "403_FORBIDDEN"@,
            SegmentError::TooManyRequests => "请求过于频繁 (429)"@,
            SegmentError::Status(code) => "下载分片失败: "@ + decimal(*code as nat),
            SegmentError::Html => "分片返回了 HTML 而非视频数据"@,
            SegmentError::Empty => "分片下载数据为空"@,
            SegmentError::TooSmall(actual) => "分片数据过小: "@ + decimal(*actual as nat) + " 字节"@,
            SegmentError::Incomplete { expected, actual } => "分片数据不完整: 期望 "@ + decimal(
                *expected as nat,
            ) + " 字节，实际 "@ + decimal(*actual as nat) + " 字节"@,
            SegmentError::TimedOut => "分片下载超时 ("@ + decimal(
                SEGMENT_DOWNLOAD_TIMEOUT_SECS as nat,
            ) + "秒)"@,
            SegmentError::Transport(message) => message@,
        }
    }

    /// The error's text.
    pub fn message(&self) -> (message: String)
        ensures
            message@ == self.text(),
    {
        match self {
            SegmentError::NotReady => "分片尚未就绪 (418)".to_string(),
            SegmentError::NotFound => "404_NOT_FOUND".to_string(),
            SegmentError::Forbidden => "403_FORBIDDEN".to_string(),
            SegmentError::TooManyRequests => "请求过于频繁 (429)".to_string(),
            SegmentError::Status(code) => {
                let mut message: String = "下载分片失败: ".to_string();
                push_decimal(&mut message, *code as u64);
                message
            },
            SegmentError::Html => "分片返回了 HTML 而非视频数据".to_string(),
            SegmentError::Empty => "分片下载数据为空".to_string(),
            SegmentError::TooSmall(actual) => {
                let mut message: String = "分片数据过小: ".to_string();
                push_decimal(&mut message, *actual as u64);
                message.append(" 字节");
                message
            },
            SegmentError::Incomplete { expected, actual } => {
                let mut message: String = "分片数据不完整: 期望 ".to_string();
                push_decimal(&mut message, *expected as u64);
                message.append(" 字节，实际 ");
                push_decimal(&mut message, *actual as u64);
                message.append(" 字节");
                message
            },
            SegmentError::TimedOut => {
                let mut message: String = "分片下载超时 (".to_string();
                push_decimal(&mut message, SEGMENT_DOWNLOAD_TIMEOUT_SECS);
                message.append("秒)");
                message
            },
            SegmentError::Transport(message) => message.clone(),
        }
    }
}

/// Looks at a segment's status and headers. Where they are good, gives the number of bytes that
/// the body must have, if the server announced one.
pub fn check_segment_headers(headers: &SegmentHeaders) -> (checked: Result<Option<usize>, SegmentError>)
    ensures
        match checked {
            Ok(expected) => {
                &&& status_error(headers.status) is None
                &&& !is_html(headers.content_type)
                &&& match expected {
                    Some(length) => announced_length(headers.content_length) == Some(length as nat),
                    None => announced_length(headers.content_length) is None,
                }
            },
            Err(error) => {
                ||| status_error(headers.status) == Some(error)
                ||| {
                    &&& status_error(headers.status) is None
                    &&& is_html(headers.content_type)
                    &&& error == SegmentError::Html
                }
            },
        },
{
    match headers.status {
        200 => {},
        418 => return Err(SegmentError::NotReady),
        404 => return Err(SegmentError::NotFound),
        403 => return Err(SegmentError::Forbidden),
        429 => return Err(SegmentError::TooManyRequests),
        status => return Err(SegmentError::Status(status)),
    }
    if let Some(content_type) = &headers.content_type {
        if lower_text_contains(content_type.as_str(), "text/html") {
            return Err(SegmentError::Html);
        }
    }
    match &headers.content_length {
        Some(text) => {
            let chars: Vec<char> = chars_of(text.as_str());
            match read_unsigned(chars.as_slice(), usize::MAX as u64) {
                Some(length) => Ok(Some(length as usize)),
                None => Ok(None),
            }
        },
        None => Ok(None),
    }
}

/// Looks at a segment's body.
pub fn check_segment_body(expected: Option<usize>, body: Vec<u8>) -> (checked: Result<Vec<u8>, SegmentError>)
    ensures
        match checked {
            Ok(data) => data == body && body_error(expected, body.len()) is None,
            Err(error) => body_error(expected, body.len()) == Some(error),
        },
{
    let actual: usize = body.len();
    if actual < MIN_SEGMENT_SIZE {
        if actual == 0 {
            return Err(SegmentError::Empty);
        }
        return Err(SegmentError::TooSmall(actual));
    }
    if let Some(length) = expected {
        if actual != length {
            return Err(SegmentError::Incomplete { expected: length, actual });
        }
    }
    Ok(body)
}

/// The message says that the server refuses the segment, as it does for a room that asks for a
/// ticket.
pub open spec fn says_forbidden(message: Seq<char>) -> bool {
    contains_text(message, "403_FORBIDDEN"@)
}

/// Whether an error message says that the server refuses the segment.
pub fn is_forbidden_message(message: &str) -> (forbidden: bool)
    ensures
        forbidden == says_forbidden(message@),
{
    text_contains(message, "403_FORBIDDEN")
}

/// The attempts at one segment: how many of them have failed.
#[derive(Debug)]
pub struct Retry {
    failures: u32,
}

/// What follows an attempt at a segment.
#[derive(Debug)]
pub enum RetryStep {
    /// The segment is here.
    Succeed(Vec<u8>),
    /// Try again after this many milliseconds.
    RetryAfter(u64),
    /// Give up, with the error of the last attempt.
    Fail(SegmentError),
}

/// The wait after the given number of failed attempts, in milliseconds.
pub open spec fn retry_delay(failures: nat) -> nat {
    500 * failures
}

/// What follows an attempt that comes after `failures` failed ones.
pub open spec fn retry_step(failures: nat, result: Result<Vec<u8>, SegmentError>) -> RetryStep {
    match result {
        Ok(data) => RetryStep::Succeed(data),
        Err(error) => if failures + 1 < MAX_RETRIES {
            RetryStep::RetryAfter(retry_delay(failures + 1) as u64)
        } else {
            RetryStep::Fail(error)
        },
    }
}

/// How a run of attempts ends that comes after `failures` failed ones. `None`: it goes on after
/// the given results.
pub open spec fn retry_outcome(failures: nat, results: Seq<Result<Vec<u8>, SegmentError>>) -> Option<
    RetryStep,
>
    decreases results.len(),
{
    if results.len() == 0 {
        None
    } else {
        match retry_step(failures, results[0]) {
            RetryStep::RetryAfter(_) => retry_outcome(failures + 1, results.skip(1)),
            step => Some(step),
        }
    }
}

impl View for Retry {
    type V = nat;

    closed spec fn view(&self) -> nat {
        self.failures as nat
    }
}

impl Retry {
    /// No attempt was made yet.
    pub fn new() -> (retry: Retry)
        ensures
            retry@ == 0,
    {
        Retry { failures: 0 }
    }

    /// Takes the result of an attempt and says what follows it.
    pub fn after_attempt(&mut self, result: Result<Vec<u8>, SegmentError>) -> (step: RetryStep)
        requires
            old(self)@ < MAX_RETRIES,
        ensures
            step == retry_step(old(self)@, result),
            final(self)@ == old(self)@ + if result is Err {
                1nat
            } else {
                0nat
            },
            step is RetryAfter ==> final(self)@ < MAX_RETRIES,
    {
        match result {
            Ok(data) => RetryStep::Succeed(data),
            Err(error) => {
                self.failures = self.failures + 1;
                if self.failures < MAX_RETRIES {
                    RetryStep::RetryAfter(500 * self.failures as u64)
                } else {
                    RetryStep::Fail(error)
                }
            },
        }
    }
}

/// A segment is fetched three times at most: the first attempt that succeeds gives the data, and
/// after three failed attempts the error is the one of the third.
pub proof fn law_three_attempts(results: Seq<Result<Vec<u8>, SegmentError>>)
    requires
        results.len() >= 3,
    ensures
        retry_outcome(0, results) == Some(
            match results[0] {
                Ok(data) => RetryStep::Succeed(data),
                Err(_) => match results[1] {
                    Ok(data) => RetryStep::Succeed(data),
                    Err(_) => match results[2] {
                        Ok(data) => RetryStep::Succeed(data),
                        Err(error) => RetryStep::Fail(error),
                    },
                },
            },
        ),
{
    reveal_with_fuel(retry_outcome, 4);
    assert(results.skip(1)[0] == results[1]);
    assert(results.skip(1).skip(1)[0] == results[2]);
}

/// The waits between the attempts are half a second and a second, whatever went wrong.
pub proof fn law_retry_delays(first: SegmentError, second: SegmentError)
    ensures
        retry_step(0, Err(first)) == RetryStep::RetryAfter(500),
        retry_step(1, Err(second)) == RetryStep::RetryAfter(1000),
{
}

/// A text without an underscore does not say that the segment is refused.
proof fn lemma_needs_underscore(message: Seq<char>)
    requires
        forall|i: int| 0 <= i < message.len() ==> message[i] != '_',
    ensures
        !says_forbidden(message),
{
    reveal_strlit("403_FORBIDDEN");
    assert forall|i: int| !occurs_at(message, "403_FORBIDDEN"@, i) by {
        if occurs_at(message, "403_FORBIDDEN"@, i) {
            assert(message.subrange(i, i + 13)[3] == message[i + 3]);
        }
    }
}

/// Of the errors that a reply or its absence stands for, the refusal is the only one whose text
/// says that the segment is refused.
pub proof fn law_only_refusals_say_forbidden(error: SegmentError)
    requires
        !(error is Transport),
    ensures
        says_forbidden(error.text()) <==> error is Forbidden,
{
    let text = error.text();
    reveal_strlit("403_FORBIDDEN");
    reveal_strlit("404_NOT_FOUND");
    reveal_strlit("分片尚未就绪 (418)");
    reveal_strlit("请求过于频繁 (429)");
    reveal_strlit("下载分片失败: ");
    reveal_strlit("分片返回了 HTML 而非视频数据");
    reveal_strlit("分片下载数据为空");
    reveal_strlit("分片数据过小: ");
    reveal_strlit(" 字节");
    reveal_strlit("分片数据不完整: 期望 ");
    reveal_strlit(" 字节，实际 ");
    reveal_strlit("分片下载超时 (");
    reveal_strlit("秒)");
    match error {
        SegmentError::Forbidden => {
            assert(text.subrange(0, 13) =~= "403_FORBIDDEN"@);
            assert(occurs_at(text, "403_FORBIDDEN"@, 0));
        },
        SegmentError::NotFound => {
            assert forall|i: int| !occurs_at(text, "403_FORBIDDEN"@, i) by {
                if occurs_at(text, "403_FORBIDDEN"@, i) {
                    assert(text.subrange(i, i + 13)[2] == text[i + 2]);
                }
            }
        },
        SegmentError::Status(code) => {
            lemma_decimal_digits(code as nat);
            lemma_needs_underscore(text);
        },
        SegmentError::TooSmall(actual) => {
            lemma_decimal_digits(actual as nat);
            lemma_needs_underscore(text);
        },
        SegmentError::Incomplete { expected, actual } => {
            lemma_decimal_digits(expected as nat);
            lemma_decimal_digits(actual as nat);
            lemma_needs_underscore(text);
        },
        SegmentError::TimedOut => {
            lemma_decimal_digits(SEGMENT_DOWNLOAD_TIMEOUT_SECS as nat);
            lemma_needs_underscore(text);
        },
        _ => {
            lemma_needs_underscore(text);
        },
    }
}

} // verus!
