use screc::segment::{
    check_segment_body, check_segment_headers, is_forbidden_message, Retry, RetryStep, SegmentError,
    SegmentHeaders,
};

fn headers(status: u16, content_type: Option<&str>, content_length: Option<&str>) -> SegmentHeaders {
    SegmentHeaders {
        status,
        content_type: content_type.map(|text| text.to_string()),
        content_length: content_length.map(|text| text.to_string()),
    }
}

#[test]
fn only_status_200_is_a_segment() {
    assert_eq!(check_segment_headers(&headers(200, None, None)), Ok(None));
    assert_eq!(check_segment_headers(&headers(418, None, None)), Err(SegmentError::NotReady));
    assert_eq!(check_segment_headers(&headers(404, None, None)), Err(SegmentError::NotFound));
    assert_eq!(check_segment_headers(&headers(403, None, None)), Err(SegmentError::Forbidden));
    assert_eq!(check_segment_headers(&headers(429, None, None)), Err(SegmentError::TooManyRequests));
    assert_eq!(check_segment_headers(&headers(206, None, None)), Err(SegmentError::Status(206)));
    assert_eq!(check_segment_headers(&headers(500, Some("text/html"), None)), Err(SegmentError::Status(500)));
}

#[test]
fn web_pages_are_no_segments() {
    assert_eq!(check_segment_headers(&headers(200, Some("Text/HTML; charset=utf-8"), Some("200"))), Err(SegmentError::Html));
    assert_eq!(check_segment_headers(&headers(200, Some("text/html"), None)), Err(SegmentError::Html));
    assert_eq!(check_segment_headers(&headers(200, Some("video/mp2t"), Some("200"))), Ok(Some(200)));
    assert_eq!(check_segment_headers(&headers(200, Some("text/htm"), None)), Ok(None));
}

#[test]
fn lower_case_agrees_with_the_standard_library() {
    for text in ["TEXT/HTML", "tExT/hTmL", "text/ＨＴＭＬ", "İtext/html", "texT/HTMK", "ΤEXT/HTML", ""] {
        let html = text.to_lowercase().contains("text/html");
        assert_eq!(check_segment_headers(&headers(200, Some(text), None)).is_err(), html, "{}", text);
    }
}

#[test]
fn unreadable_lengths_are_ignored() {
    assert_eq!(check_segment_headers(&headers(200, None, Some("abc"))), Ok(None));
    assert_eq!(check_segment_headers(&headers(200, None, Some(""))), Ok(None));
    assert_eq!(check_segment_headers(&headers(200, None, Some("18446744073709551616"))), Ok(None));
    assert_eq!(check_segment_headers(&headers(200, None, Some("+300"))), Ok(Some(300)));
}

#[test]
fn bodies_are_measured() {
    assert_eq!(check_segment_body(None, vec![]), Err(SegmentError::Empty));
    assert_eq!(check_segment_body(Some(0), vec![]), Err(SegmentError::Empty));
    assert_eq!(check_segment_body(Some(127), vec![1; 127]), Err(SegmentError::TooSmall(127)));
    assert_eq!(check_segment_body(None, vec![1; 128]), Ok(vec![1; 128]));
    assert_eq!(check_segment_body(Some(128), vec![7; 128]), Ok(vec![7; 128]));
    assert_eq!(
        check_segment_body(Some(300), vec![1; 200]),
        Err(SegmentError::Incomplete { expected: 300, actual: 200 })
    );
}

#[test]
fn error_messages() {
    assert_eq!(SegmentError::NotReady.message(), "分片尚未就绪 (418)");
    assert_eq!(SegmentError::NotFound.message(), "404_NOT_FOUND");
    assert_eq!(SegmentError::Forbidden.message(), "403_FORBIDDEN");
    assert_eq!(SegmentError::TooManyRequests.message(), "请求过于频繁 (429)");
    assert_eq!(SegmentError::Status(503).message(), "下载分片失败: 503");
    assert_eq!(SegmentError::Html.message(), "分片返回了 HTML 而非视频数据");
    assert_eq!(SegmentError::Empty.message(), "分片下载数据为空");
    assert_eq!(SegmentError::TooSmall(9).message(), "分片数据过小: 9 字节");
    assert_eq!(
        SegmentError::Incomplete { expected: 1000, actual: 210 }.message(),
        "分片数据不完整: 期望 1000 字节，实际 210 字节"
    );
    assert_eq!(SegmentError::TimedOut.message(), "分片下载超时 (30秒)");
    assert_eq!(SegmentError::Transport("broken pipe".to_string()).message(), "broken pipe");
}

#[test]
fn only_refusals_say_forbidden() {
    assert!(is_forbidden_message(&SegmentError::Forbidden.message()));
    assert!(is_forbidden_message("error for url (https://a/403_FORBIDDEN.ts)"));
    assert!(!is_forbidden_message(&SegmentError::NotFound.message()));
    assert!(!is_forbidden_message(&SegmentError::Status(403).message()));
    assert!(!is_forbidden_message(&SegmentError::TooSmall(403).message()));
    assert!(!is_forbidden_message("403 FORBIDDEN"));
    assert!(!is_forbidden_message(""));
}

#[test]
fn three_attempts_then_the_last_error() {
    let mut retry = Retry::new();
    assert!(matches!(retry.after_attempt(Err(SegmentError::NotReady)), RetryStep::RetryAfter(500)));
    assert!(matches!(retry.after_attempt(Err(SegmentError::TimedOut)), RetryStep::RetryAfter(1000)));
    assert!(matches!(retry.after_attempt(Err(SegmentError::Forbidden)), RetryStep::Fail(SegmentError::Forbidden)));
}

#[test]
fn the_first_success_counts() {
    let mut retry = Retry::new();
    assert!(matches!(retry.after_attempt(Err(SegmentError::NotReady)), RetryStep::RetryAfter(500)));
    match retry.after_attempt(Ok(vec![1, 2, 3])) {
        RetryStep::Succeed(data) => assert_eq!(data, vec![1, 2, 3]),
        other => panic!("{:?}", other),
    }
}
