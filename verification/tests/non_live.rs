use bytes::Bytes;
use hls_stream::error::VideoError;
use hls_stream::non_live::{partial_response_end, NonLiveStream, NonLiveStreamOptions};
use hls_stream::range::range_header_value;
use hls_stream::status::{classify_status, unexpected_status, Delivery};

fn stream_of(content_length: u64, dl_chunk_size: u64, start: u64, end: u64) -> NonLiveStream {
    NonLiveStream::new(NonLiveStreamOptions {
        link: "http://127.0.0.1:9/media.bin".to_string(),
        content_length,
        dl_chunk_size,
        start,
        end,
    })
    .expect("construct non-live stream")
}

/// One chunk against a server that answers every request with `reply`, whose
/// parts are the status, the body and the `Content-Range` header.
fn chunk(
    stream: &mut NonLiveStream,
    ranges: &mut Vec<String>,
    reply: (u16, &'static [u8], Option<&str>),
) -> Result<Option<Bytes>, VideoError> {
    let request = match stream.begin_chunk() {
        Some(request) => request,
        None => return Ok(None),
    };
    ranges.push(request.range);
    let (status, body, content_range) = reply;
    let delivered = NonLiveStream::range_status(status)?;
    stream
        .finish_chunk(delivered, content_range, Bytes::from_static(body))
        .map(Some)
}

fn text_of(error: VideoError) -> String {
    match error {
        VideoError::DownloadError(text) => text,
        other => panic!("not a download error: {other:?}"),
    }
}

#[test]
fn concurrent_chunk_calls_advance_to_distinct_ranges() {
    let mut stream = stream_of(8, 3, 0, 3);
    let mut ranges = Vec::new();
    chunk(&mut stream, &mut ranges, (206, b"test", Some("bytes 0-3/8")))
        .expect("first chunk result")
        .expect("first chunk must contain bytes");
    chunk(&mut stream, &mut ranges, (206, b"xyz", Some("bytes 4-6/8")))
        .expect("second chunk result")
        .expect("second chunk must contain bytes");
    assert_eq!(ranges[0], "bytes=0-3");
    assert_eq!(
        ranges[1], "bytes=4-6",
        "two concurrent callers must not download the same byte range"
    );
}

#[test]
fn exact_chunk_boundary_stops_without_request_past_eof() {
    let mut stream = stream_of(6, 3, 0, 2);
    let mut ranges = Vec::new();
    assert_eq!(
        chunk(&mut stream, &mut ranges, (206, b"abc", Some("bytes 0-2/6")))
            .expect("first chunk must succeed")
            .as_deref(),
        Some(b"abc".as_slice())
    );
    assert_eq!(
        chunk(&mut stream, &mut ranges, (206, b"def", Some("bytes 3-5/6")))
            .expect("second chunk must succeed")
            .as_deref(),
        Some(b"def".as_slice())
    );
    let third = chunk(&mut stream, &mut ranges, (416, b"", None));
    assert_eq!(
        ranges,
        vec!["bytes=0-2", "bytes=3-5"],
        "no request may start at or beyond content_length"
    );
    assert!(
        matches!(third, Ok(None)),
        "stream aligned exactly to content length must terminate cleanly; got {third:?}"
    );
}

#[test]
fn one_byte_chunk_size_downloads_all_bytes_then_eof() {
    let mut stream = stream_of(3, 1, 0, 0);
    let mut ranges = Vec::new();
    let first = chunk(&mut stream, &mut ranges, (206, b"a", Some("bytes 0-0/3")))
        .expect("first one-byte chunk call must succeed");
    let second = chunk(&mut stream, &mut ranges, (206, b"b", Some("bytes 1-1/3")))
        .expect("second one-byte chunk call must succeed");
    let third = chunk(&mut stream, &mut ranges, (206, b"c", Some("bytes 2-2/3")))
        .expect("third one-byte chunk call must succeed");
    let eof = chunk(&mut stream, &mut ranges, (206, b"x", Some("bytes 3-3/3")))
        .expect("EOF call must succeed");
    assert_eq!(
        ranges,
        vec!["bytes=0-0", "bytes=1-1", "bytes=2-2"],
        "chunk size 1 must advance one byte at a time without an extra request"
    );
    assert_eq!(first.as_deref(), Some(b"a".as_slice()));
    assert_eq!(second.as_deref(), Some(b"b".as_slice()));
    assert_eq!(third.as_deref(), Some(b"c".as_slice()));
    assert!(eof.is_none(), "stream must terminate after the third byte");
}

#[test]
fn range_ignored_200_full_body_is_emitted_once() {
    let mut stream = stream_of(6, 3, 0, 2);
    let mut ranges = Vec::new();
    let first = chunk(&mut stream, &mut ranges, (200, b"abcdef", None))
        .expect("first chunk must succeed");
    let second = chunk(&mut stream, &mut ranges, (200, b"abcdef", None))
        .expect("second chunk must terminate cleanly");
    assert_eq!(first.as_deref(), Some(b"abcdef".as_slice()));
    assert!(
        second.is_none(),
        "full 200 representation must not be emitted twice"
    );
    assert_eq!(
        ranges,
        vec!["bytes=0-2"],
        "no second request is needed after a full 200 response"
    );
}

#[test]
fn range_ignored_after_partial_response_emits_only_missing_suffix() {
    let mut stream = stream_of(6, 3, 0, 2);
    let mut ranges = Vec::new();
    let first = chunk(&mut stream, &mut ranges, (206, b"abc", Some("bytes 0-2/6")))
        .expect("partial chunk must succeed");
    let second = chunk(&mut stream, &mut ranges, (200, b"abcdef", None))
        .expect("ignored-range fallback must succeed");
    let eof = chunk(&mut stream, &mut ranges, (200, b"abcdef", None))
        .expect("stream must terminate cleanly");
    assert_eq!(first.as_deref(), Some(b"abc".as_slice()));
    assert_eq!(
        second.as_deref(),
        Some(b"def".as_slice()),
        "already-emitted prefix must be removed from a later full 200 response"
    );
    assert!(eof.is_none());
    assert_eq!(ranges, vec!["bytes=0-2", "bytes=3-5"]);
}

#[test]
fn short_partial_response_resumes_from_served_end() {
    let mut stream = stream_of(6, 5, 0, 4);
    let mut ranges = Vec::new();
    let mut output: Vec<u8> = Vec::new();
    let replies: [(u16, &'static [u8], Option<&str>); 3] = [
        (206, b"ab", Some("bytes 0-1/6")),
        (206, b"cdef", Some("bytes 2-5/6")),
        (206, b"f", Some("bytes 5-5/6")),
    ];
    for reply in replies {
        match chunk(&mut stream, &mut ranges, reply)
            .expect("short-partial chunk call must succeed")
        {
            Some(bytes) => output.extend_from_slice(&bytes),
            None => break,
        }
    }
    assert_eq!(
        ranges,
        vec!["bytes=0-4", "bytes=2-5"],
        "next request must resume after the last byte actually served, not after the originally requested end"
    );
    assert_eq!(
        output, b"abcdef",
        "short 206 responses must not cause bytes in the requested range to be skipped"
    );
}

fn zero_chunk_options(link: String) -> NonLiveStreamOptions {
    NonLiveStreamOptions {
        link,
        content_length: 3,
        dl_chunk_size: 0,
        start: 0,
        end: 0,
    }
}

#[test]
fn zero_chunk_size_is_rejected() {
    let result = NonLiveStream::new(zero_chunk_options("http://127.0.0.1:9/media.bin".to_string()));
    assert!(
        result.is_err(),
        "a zero maximum chunk size must be rejected instead of constructing a stream with a non-advancing range end"
    );
    assert_eq!(
        text_of(result.err().expect("refused")),
        "download chunk size must be greater than zero"
    );
}

#[test]
fn zero_chunk_size_never_emits_descending_range() {
    let mut stream = match NonLiveStream::new(zero_chunk_options(
        "http://127.0.0.1:9/media.bin".to_string(),
    )) {
        Ok(stream) => stream,
        Err(_) => return,
    };
    let mut ranges = Vec::new();
    let _ = chunk(&mut stream, &mut ranges, (206, b"a", None));
    let _ = chunk(&mut stream, &mut ranges, (206, b"a", None));
    assert!(ranges.is_empty());
}

#[test]
fn partial_content_total_mismatch_is_rejected() {
    let mut stream = stream_of(3, 3, 0, 2);
    let mut ranges = Vec::new();
    let result = chunk(&mut stream, &mut ranges, (206, b"abc", Some("bytes 0-2/4")));
    assert_eq!(ranges, vec!["bytes=0-2"]);
    assert!(
        result.is_err(),
        "a 206 response for a different complete representation length must be rejected; got {result:?}"
    );
    assert_eq!(
        text_of(result.err().expect("refused")),
        "Content-Range representation length 4 does not match expected content length 3: bytes 0-2/4"
    );
}

#[test]
fn matching_partial_content_total_remains_accepted() {
    let mut stream = stream_of(3, 3, 0, 2);
    let mut ranges = Vec::new();
    let result = chunk(&mut stream, &mut ranges, (206, b"abc", Some("bytes 0-2/3")));
    assert_eq!(
        result
            .expect("matching representation length must succeed")
            .as_deref(),
        Some(b"abc".as_slice())
    );
}

#[test]
fn ignored_range_full_body_length_mismatch_is_rejected() {
    let mut stream = stream_of(3, 3, 0, 2);
    let mut ranges = Vec::new();
    let result = chunk(&mut stream, &mut ranges, (200, b"abcd", None));
    assert_eq!(ranges, vec!["bytes=0-2"]);
    assert!(
        result.is_err(),
        "a full 200 representation whose length conflicts with known metadata must be rejected; got {result:?}"
    );
    assert_eq!(
        text_of(result.err().expect("refused")),
        "server ignored Range but returned 4 bytes for a 3-byte representation"
    );
}

#[test]
fn partial_content_without_content_range_is_rejected() {
    let mut stream = stream_of(6, 3, 3, 5);
    let mut ranges = Vec::new();
    let result = chunk(&mut stream, &mut ranges, (206, b"abc", None));
    assert_eq!(ranges, vec!["bytes=3-5"]);
    assert!(
        result.is_err(),
        "single-part HTTP 206 without Content-Range must be rejected because the returned byte offsets cannot be identified; got {result:?}"
    );
    assert_eq!(
        text_of(result.err().expect("refused")),
        "partial response was missing Content-Range"
    );
}

#[test]
fn unexpected_success_status_does_not_advance_range() {
    let mut stream = stream_of(6, 3, 0, 2);
    let mut ranges = Vec::new();
    let result = chunk(&mut stream, &mut ranges, (204, b"", None));
    assert_eq!(ranges, vec!["bytes=0-2"]);
    assert!(
        result.is_err(),
        "a ranged GET may only be consumed as a full 200 or partial 206 representation; 204 must not be treated as an empty successful chunk or advance the byte cursor; got {result:?}"
    );
    assert_eq!(
        text_of(result.err().expect("refused")),
        "unexpected HTTP status 204 No Content for ranged media request"
    );
    assert_eq!((stream.start_index(), stream.end_index()), (0, 2));
}

#[test]
fn exhausted_stream_can_be_read_again() {
    let mut stream = stream_of(6, 3, 1, 2);
    let mut ranges = Vec::new();
    for _ in 0..2 {
        chunk(&mut stream, &mut ranges, (200, b"abcdef", None)).expect("full body");
        assert_eq!((stream.start_index(), stream.end_index()), (6, 5));
        let eof = chunk(&mut stream, &mut ranges, (200, b"abcdef", None)).expect("end");
        assert!(eof.is_none());
        assert_eq!((stream.start_index(), stream.end_index()), (1, 2));
    }
    assert_eq!(ranges, vec!["bytes=1-2", "bytes=1-2"]);
}

#[test]
fn full_body_is_cut_at_the_start() {
    let mut stream = stream_of(6, 3, 2, 4);
    let mut ranges = Vec::new();
    let bytes = chunk(&mut stream, &mut ranges, (200, b"abcdef", None)).expect("full body");
    assert_eq!(bytes.as_deref(), Some(b"cdef".as_slice()));
}

#[test]
fn request_is_held_to_the_resource() {
    let mut stream = stream_of(6, 100, 0, 99);
    let request = stream.begin_chunk().expect("a request");
    assert_eq!((request.start, request.end), (0, 5));
    assert_eq!(request.range, "bytes=0-5");
    assert_eq!(stream.content_length(), 6);
    assert_eq!(stream.link(), "http://127.0.0.1:9/media.bin");
}

#[test]
fn empty_resource_ends_at_once() {
    let mut stream = stream_of(0, 3, 0, 2);
    assert!(stream.begin_chunk().is_none());
    assert!(stream.begin_chunk().is_none());
}

#[test]
fn refused_reply_asks_for_the_same_range_again() {
    let mut stream = stream_of(6, 3, 0, 2);
    let mut ranges = Vec::new();
    assert!(chunk(&mut stream, &mut ranges, (206, b"ab", Some("bytes 0-2/6"))).is_err());
    assert!(chunk(&mut stream, &mut ranges, (206, b"abc", Some("bytes 1-3/6"))).is_err());
    assert!(chunk(&mut stream, &mut ranges, (200, b"abc", None)).is_err());
    assert_eq!(ranges, vec!["bytes=0-2", "bytes=0-2", "bytes=0-2"]);
}

#[test]
fn next_range_is_held_to_the_greatest_number() {
    let mut stream = stream_of(u64::MAX, u64::MAX, 4, 6);
    stream
        .finish_chunk(
            Delivery::Partial,
            Some("bytes 4-6/18446744073709551615"),
            Bytes::from_static(b"abc"),
        )
        .expect("partial reply");
    assert_eq!((stream.start_index(), stream.end_index()), (7, u64::MAX));
    let request = stream.begin_chunk().expect("a request");
    assert_eq!(request.range, "bytes=7-18446744073709551614");
}

#[test]
fn content_range_is_accepted_with_either_total() {
    assert_eq!(partial_response_end("bytes 0-3/8", 0, 3, 8, 4), Ok(3));
    assert_eq!(partial_response_end("bytes 0-3/*", 0, 3, 8, 4), Ok(3));
    assert_eq!(partial_response_end("bytes 2-3/8", 2, 7, 8, 2), Ok(3));
    assert_eq!(partial_response_end("bytes +2-003/+8", 2, 7, 8, 2), Ok(3));
}

#[test]
fn every_content_range_refusal_says_why() {
    let cases: [(&str, u64, u64, u64, usize, &str); 12] = [
        ("bytes 0-3/8", 0, 3, 8, 0, "partial response body was empty"),
        ("items 0-3/8", 0, 3, 8, 4, "invalid Content-Range unit: items 0-3/8"),
        ("bytes 0-3", 0, 3, 8, 4, "invalid Content-Range: bytes 0-3"),
        ("bytes 03/8", 0, 3, 8, 4, "invalid Content-Range bounds: bytes 03/8"),
        ("bytes x-3/8", 0, 3, 8, 4, "invalid Content-Range start: bytes x-3/8"),
        ("bytes 0-/8", 0, 3, 8, 4, "invalid Content-Range end: bytes 0-/8"),
        (
            "bytes 0-18446744073709551616/8",
            0,
            3,
            8,
            4,
            "invalid Content-Range end: bytes 0-18446744073709551616/8",
        ),
        (
            "bytes 1-3/8",
            0,
            3,
            8,
            3,
            "unexpected Content-Range bytes 1-3/8 for requested bytes=0-3",
        ),
        ("bytes 0-3/ 8", 0, 3, 8, 4, "invalid Content-Range total: bytes 0-3/ 8"),
        (
            "bytes 0-8/8",
            0,
            9,
            8,
            9,
            "Content-Range end exceeds representation length: bytes 0-8/8",
        ),
        (
            "bytes 0-18446744073709551615/*",
            0,
            u64::MAX,
            8,
            4,
            "partial response length overflow",
        ),
        (
            "bytes 0-3/8",
            0,
            3,
            8,
            5,
            "Content-Range bytes 0-3/8 describes 4 bytes but body contained 5",
        ),
    ];
    for (header, start, end, length, body_len, text) in cases {
        let error = partial_response_end(header, start, end, length, body_len)
            .err()
            .expect("refused");
        assert_eq!(text_of(error), text);
    }
    assert!(partial_response_end("bytes 0-4/8", 0, 3, 8, 5).is_err());
    assert!(partial_response_end("bytes 3-2/8", 3, 5, 8, 1).is_err());
}

#[test]
fn own_range_header_is_accepted_back() {
    let numbers: [u64; 6] = [0, 1, 9, 10, 99, 1_000_000];
    for start in numbers {
        for length in 1_u64..4 {
            let end = start + length - 1;
            let asked = range_header_value(start, end);
            let header = format!("bytes {}/2000000", asked.trim_start_matches("bytes="));
            assert_eq!(
                partial_response_end(&header, start, end + 1, 2_000_000, length as usize),
                Ok(end)
            );
        }
    }
}

#[test]
fn status_is_sorted_into_what_it_delivers() {
    assert_eq!(NonLiveStream::range_status(200), Ok(Delivery::Full));
    assert_eq!(NonLiveStream::range_status(206), Ok(Delivery::Partial));
    for status in [400_u16, 404, 416, 500, 599] {
        assert_eq!(
            NonLiveStream::range_status(status),
            Err(VideoError::HttpStatus(status))
        );
    }
    assert_eq!(
        text_of(classify_status(301, "a test").err().expect("refused")),
        "unexpected HTTP status 301 Moved Permanently for a test"
    );
    assert_eq!(
        text_of(classify_status(299, "a test").err().expect("refused")),
        "unexpected HTTP status 299 <unknown status code> for a test"
    );
    assert_eq!(
        text_of(unexpected_status("204 No Content", "ranged media request")),
        "unexpected HTTP status 204 No Content for ranged media request"
    );
}

#[test]
fn replies_that_give_what_was_asked_for_are_never_refused() {
    let resource: &'static [u8] = b"abcdefghij";
    let mut stream = stream_of(10, 4, 1, 4);
    let mut ranges = Vec::new();
    let mut output: Vec<u8> = Vec::new();
    let replies: [(u16, &'static [u8], Option<&str>); 4] = [
        (206, b"bcde", Some("bytes 1-4/10")),
        (206, b"f", Some("bytes 5-5/*")),
        (206, b"gh", Some("bytes +6-07/010")),
        (200, resource, None),
    ];
    for reply in replies {
        let bytes = chunk(&mut stream, &mut ranges, reply).expect("not refused");
        output.extend_from_slice(&bytes.expect("not over"));
    }
    assert_eq!(output, &resource[1..]);
    assert_eq!(
        ranges,
        vec!["bytes=1-4", "bytes=5-8", "bytes=6-9", "bytes=8-9"]
    );
    assert!(stream.begin_chunk().is_none());
}
