use aes::cipher::block_padding::Pkcs7;
use aes::cipher::{BlockEncryptMut, KeyIvInit};
use bytes::Bytes;
use hls_stream::buffer::join_slices;
use hls_stream::chunk::{ChunkAction, ChunkEvent, ChunkFailure, ChunkPhase};
use hls_stream::encryption::{sequence_vector, Encryption};
use hls_stream::error::VideoError;
use hls_stream::live::{elapsed_since, LiveStream, LiveStreamOptions};
use hls_stream::media_range::normalize_media_byte_range;
use hls_stream::playlist::{ByteRange, InitializationMap, Key, Playlist, PlaylistSegment};
use hls_stream::remote_data::RemoteData;
use hls_stream::resource_url::{make_absolute_url, ResourceUrl};
use hls_stream::segment::Segment;

const ROOT: &str = "http://127.0.0.1:9";

fn live_stream() -> LiveStream {
    LiveStream::new(LiveStreamOptions {
        stream_url: format!("{ROOT}/playlist.m3u8"),
    })
    .expect("construct live stream")
}

fn listed(uri: &str, byte_range: Option<ByteRange>) -> PlaylistSegment {
    PlaylistSegment {
        uri: uri.to_string(),
        byte_range,
        discontinuity: false,
        key: None,
        map: None,
    }
}

fn playlist_of(media_sequence: u64, end_list: bool, segments: Vec<PlaylistSegment>) -> Playlist {
    Playlist {
        media_sequence,
        discontinuity_sequence: 0,
        end_list,
        segments,
    }
}

/// A stream over one segment, with nothing to come behind it.
fn one_segment(uri: &str, byte_range: Option<ByteRange>) -> LiveStream {
    let mut stream = live_stream();
    stream
        .refresh_with(Ok(playlist_of(1, true, vec![listed(uri, byte_range)])), 1_000)
        .expect("queue one segment");
    stream
}

/// One chunk, driven at the time `now` against a server: `serve` answers a
/// request for a path with a `Range` header by a status and a body. Everything
/// that was asked for is written down.
fn drive(
    stream: &mut LiveStream,
    now: u128,
    asked: &mut Vec<(String, Option<String>)>,
    serve: &dyn Fn(&str, Option<&str>) -> (u16, Vec<u8>),
) -> Result<Option<Bytes>, ChunkFailure> {
    let path = |url: &str| url.trim_start_matches(ROOT).to_string();
    let mut fetch = |url: &str, range: Option<String>| {
        let reply = serve(&path(url), range.as_deref());
        asked.push((path(url), range));
        reply
    };
    let (mut phase, mut action) = stream.begin_chunk();
    loop {
        let event = match action {
            ChunkAction::End => return Ok(None),
            ChunkAction::Emit(bytes) => return Ok(Some(bytes)),
            ChunkAction::ReadClock { after } => ChunkEvent::Time(now + u128::from(after)),
            ChunkAction::FetchPlaylist => {
                let (_, body) = fetch(&format!("{ROOT}/playlist.m3u8"), None);
                ChunkEvent::Playlist {
                    text: String::from_utf8(body).expect("a text"),
                    now,
                }
            }
            ChunkAction::FetchInitialization(data) => {
                let (status, body) = fetch(data.url().as_str(), data.byte_range_string());
                ChunkEvent::Resource {
                    delivered: RemoteData::fetch_status(status).map_err(ChunkFailure::Refused)?,
                    body: Bytes::from(body),
                }
            }
            ChunkAction::FetchSegment(data) => {
                let (status, body) = fetch(data.url().as_str(), data.byte_range_string());
                ChunkEvent::Resource {
                    delivered: LiveStream::segment_status(status).map_err(ChunkFailure::Refused)?,
                    body: Bytes::from(body),
                }
            }
            ChunkAction::FetchKey(url) => {
                let (_, body) = fetch(url.as_str(), None);
                ChunkEvent::Key(Bytes::from(body))
            }
        };
        let step = stream.advance(phase, event)?;
        phase = step.0;
        action = step.1;
    }
}

fn paths(asked: &[(String, Option<String>)]) -> Vec<&str> {
    asked.iter().map(|(path, _)| path.as_str()).collect()
}

#[test]
fn concurrent_chunk_calls_do_not_consume_the_same_segment_twice() {
    let mut stream = one_segment("segment.ts", None);
    let mut asked = Vec::new();
    let serve = |_: &str, _: Option<&str>| (200, b"test".to_vec());
    let first = drive(&mut stream, 1_000, &mut asked, &serve).expect("first chunk result");
    let second = drive(&mut stream, 1_000, &mut asked, &serve).expect("second chunk result");
    let delivered = usize::from(first.is_some()) + usize::from(second.is_some());
    assert_eq!(
        delivered, 1,
        "one queued segment must be delivered exactly once"
    );
    assert_eq!(paths(&asked), vec!["/segment.ts"]);
}

#[test]
fn clock_rollback_does_not_underflow_live_refresh_elapsed_time() {
    assert_eq!(elapsed_since(20_001, 20_000), 0);
    assert_eq!(elapsed_since(20_000, 20_001), 1);
}

#[test]
fn failed_segment_url_does_not_advance_last_sequence() {
    let body = "#EXTM3U\n#EXT-X-TARGETDURATION:10\n#EXT-X-MEDIA-SEQUENCE:1\n#EXTINF:10,\nhttp://[::1\n";
    let mut stream = live_stream();
    let result = stream.refresh_playlist(body, 5);
    assert!(
        result.is_err(),
        "malformed segment URL must reject the refresh"
    );
    assert!(
        stream.last_seg().is_none(),
        "a segment that failed URL parsing was never queued and must remain retryable"
    );
    assert_eq!(
        result,
        Err(ChunkFailure::Refused(VideoError::UrlParseError(
            "invalid IPv6 address".to_string()
        )))
    );
    assert_eq!(stream.last_refresh(), 0);
    assert!(stream.segments().is_empty());
}

fn run_chunk(range: Option<ByteRange>) -> (Bytes, Option<String>) {
    let mut stream = one_segment("media.bin", range);
    let mut asked = Vec::new();
    let serve = |_: &str, range: Option<&str>| match range {
        Some("bytes=10-13") => (206, b"part".to_vec()),
        _ => (200, b"part".to_vec()),
    };
    let body = drive(&mut stream, 1_000, &mut asked, &serve)
        .expect("chunk request should succeed")
        .expect("queued segment should produce bytes");
    assert_eq!(asked.len(), 1);
    (body, asked.remove(0).1)
}

#[test]
fn live_chunk_without_byte_range_omits_range_header() {
    let (body, range) = run_chunk(None);
    assert_eq!(&body[..], b"part");
    assert!(
        range.is_none(),
        "ordinary HLS segments must not invent a byte-range request"
    );
}

#[test]
fn live_chunk_sends_range_header_for_byte_ranged_segment() {
    let (body, range) = run_chunk(Some(ByteRange {
        length: 4,
        offset: Some(10),
    }));
    assert_eq!(&body[..], b"part");
    assert_eq!(
        range.as_deref(),
        Some("bytes=10-13"),
        "EXT-X-BYTERANGE media must be fetched with its declared HTTP Range"
    );
}

fn capture_two_ranges(second_byterange: &str) -> (Option<String>, Option<String>) {
    let playlist = format!(
        "#EXTM3U\n#EXT-X-TARGETDURATION:10\n#EXT-X-MEDIA-SEQUENCE:1\n#EXTINF:10,\n#EXT-X-BYTERANGE:4@10\nmedia.bin\n#EXTINF:10,\n#EXT-X-BYTERANGE:{second_byterange}\nmedia.bin\n#EXT-X-ENDLIST\n"
    );
    let mut stream = live_stream();
    stream
        .refresh_playlist(&playlist, 1_000)
        .expect("local playlist must parse and refresh");
    let mut asked = Vec::new();
    let serve = |_: &str, range: Option<&str>| match range {
        Some("bytes=10-13") => (206, b"one!".to_vec()),
        _ => (206, b"two!".to_vec()),
    };
    assert_eq!(
        drive(&mut stream, 1_000, &mut asked, &serve)
            .expect("first chunk request")
            .as_deref(),
        Some(b"one!".as_slice())
    );
    assert_eq!(
        drive(&mut stream, 1_000, &mut asked, &serve)
            .expect("second chunk request")
            .as_deref(),
        Some(b"two!".as_slice())
    );
    assert_eq!(paths(&asked), vec!["/media.bin", "/media.bin"]);
    (asked[0].1.clone(), asked[1].1.clone())
}

#[test]
fn explicit_byte_range_offsets_remain_independent_control() {
    let (first, second) = capture_two_ranges("4@14");
    assert_eq!(
        first.as_deref(),
        Some("bytes=10-13"),
        "first explicit byte range must be preserved"
    );
    assert_eq!(
        second.as_deref(),
        Some("bytes=14-17"),
        "second explicit byte range must be preserved"
    );
}

#[test]
fn implicit_byte_range_continues_after_previous_subrange() {
    let (first, second) = capture_two_ranges("4");
    assert_eq!(
        first.as_deref(),
        Some("bytes=10-13"),
        "first explicit byte range must be preserved"
    );
    assert_eq!(
        second.as_deref(),
        Some("bytes=14-17"),
        "an omitted EXT-X-BYTERANGE offset must continue immediately after the previous sub-range"
    );
}

#[test]
fn implicit_byte_range_accepts_equivalent_resolved_resource_uri() {
    let base = "http://example.invalid/path/playlist.m3u8";
    let first = make_absolute_url(base, "media.bin").expect("first relative URI must resolve");
    let second =
        make_absolute_url(base, "./media.bin").expect("equivalent relative URI must resolve");
    assert_eq!(
        first, second,
        "control: both spellings identify the same resolved media resource"
    );

    let mut previous = None;
    let explicit = ByteRange {
        length: 4,
        offset: Some(10),
    };
    normalize_media_byte_range(&first, Some(&explicit), &mut previous)
        .expect("explicit predecessor range must normalize");

    let implicit = ByteRange {
        length: 4,
        offset: None,
    };
    let normalized = normalize_media_byte_range(&second, Some(&implicit), &mut previous);
    assert!(
        normalized.is_ok(),
        "equivalent URI spellings resolve to the same media resource and must continue the byte range"
    );
    assert_eq!(
        normalized
            .expect("equivalent resource must normalize")
            .expect("implicit range should remain present")
            .offset,
        Some(14)
    );
}

#[test]
fn implicit_byte_range_rejects_a_different_resource() {
    let mut previous = None;
    let first = ResourceUrl::parse("http://example.invalid/first.bin")
        .expect("first control URL must parse");
    let second = ResourceUrl::parse("http://example.invalid/second.bin")
        .expect("second control URL must parse");
    let explicit = ByteRange {
        length: 4,
        offset: Some(10),
    };
    normalize_media_byte_range(&first, Some(&explicit), &mut previous)
        .expect("explicit control range must normalize");

    let implicit = ByteRange {
        length: 4,
        offset: None,
    };
    assert!(
        normalize_media_byte_range(&second, Some(&implicit), &mut previous).is_err(),
        "implicit byte ranges may only continue on the same media resource"
    );
}

#[test]
fn every_byte_range_refusal_says_why() {
    let uri = ResourceUrl::parse("http://example.invalid/media.bin").expect("parse");
    let other = ResourceUrl::parse("http://example.invalid/other.bin").expect("parse");
    let range = |length: u64, offset: Option<u64>| ByteRange { length, offset };
    let refused = |byte_range: ByteRange, mut previous: Option<(ResourceUrl, u64)>| {
        let before = previous.clone();
        let error = normalize_media_byte_range(&uri, Some(&byte_range), &mut previous)
            .err()
            .expect("refused");
        assert_eq!(previous, before);
        match error {
            VideoError::M3U8ParseError(text) => text,
            other => panic!("not about the playlist: {other:?}"),
        }
    };
    assert_eq!(
        refused(range(0, Some(1)), None),
        "HLS byte range length must be greater than zero"
    );
    assert_eq!(
        refused(range(1, None), None),
        "implicit HLS byte range has no previous sub-range"
    );
    assert_eq!(
        refused(range(1, None), Some((other, 3))),
        "implicit HLS byte range changed media resource"
    );
    assert_eq!(
        refused(range(1, None), Some((uri.clone(), u64::MAX))),
        "implicit HLS byte range offset overflow"
    );
    assert_eq!(
        refused(range(2, Some(u64::MAX)), None),
        "HLS byte range end overflow"
    );

    let mut previous = Some((uri.clone(), 9));
    assert_eq!(
        normalize_media_byte_range(&uri, Some(&range(1, Some(u64::MAX))), &mut previous),
        Ok(Some(range(1, Some(u64::MAX))))
    );
    assert_eq!(previous, Some((uri.clone(), u64::MAX)));
    assert_eq!(normalize_media_byte_range(&uri, None, &mut previous), Ok(None));
    assert_eq!(previous, None);
}

fn run_one_segment(with_map: bool) -> (Bytes, Vec<String>) {
    let map_line = if with_map {
        "#EXT-X-MAP:URI=\"init.mp4\"\n"
    } else {
        ""
    };
    let playlist = format!(
        "#EXTM3U\n#EXT-X-VERSION:7\n#EXT-X-TARGETDURATION:10\n#EXT-X-MEDIA-SEQUENCE:1\n{map_line}#EXTINF:10,\nmedia.m4s\n#EXT-X-ENDLIST\n"
    );
    let mut stream = live_stream();
    stream
        .refresh_playlist(&playlist, 1_000)
        .expect("local initialization playlist must parse");
    let mut asked = Vec::new();
    let serve = |path: &str, _: Option<&str>| match path {
        "/init.mp4" => (200, b"INIT".to_vec()),
        "/media.m4s" => (200, b"MEDIA".to_vec()),
        other => panic!("unexpected local HLS path: {other}"),
    };
    let bytes = drive(&mut stream, 1_000, &mut asked, &serve)
        .expect("live chunk request must succeed")
        .expect("queued segment must produce bytes");
    (bytes, asked.into_iter().map(|(path, _)| path).collect())
}

#[test]
fn live_chunk_without_ext_x_map_remains_plain_media_control() {
    let (bytes, paths) = run_one_segment(false);
    assert_eq!(&bytes[..], b"MEDIA");
    assert_eq!(paths, vec!["/media.m4s"]);
}

#[test]
fn live_chunk_emits_ext_x_map_before_media_segment() {
    let (bytes, paths) = run_one_segment(true);
    assert_eq!(
        paths,
        vec!["/init.mp4", "/media.m4s"],
        "EXT-X-MAP initialization must be fetched before its media segment"
    );
    assert_eq!(
        &bytes[..],
        b"INITMEDIA",
        "the initialization section must precede the media bytes returned to the stream consumer"
    );
}

#[test]
fn unchanged_ext_x_map_is_emitted_only_once_across_segments() {
    let mut first_segment = listed("one.m4s", None);
    first_segment.map = Some(InitializationMap {
        uri: "init.mp4".to_string(),
        byte_range: None,
    });
    let mut stream = live_stream();
    stream
        .refresh_with(
            Ok(playlist_of(
                1,
                true,
                vec![first_segment, listed("two.m4s", None)],
            )),
            1_000,
        )
        .expect("queue two segments");
    let mut asked = Vec::new();
    let serve = |path: &str, _: Option<&str>| match path {
        "/init.mp4" => (200, b"INIT".to_vec()),
        "/one.m4s" => (200, b"ONE".to_vec()),
        "/two.m4s" => (200, b"TWO".to_vec()),
        other => panic!("unexpected repeated-map path: {other}"),
    };
    let first = drive(&mut stream, 1_000, &mut asked, &serve)
        .expect("first repeated-map chunk must succeed")
        .expect("first repeated-map segment must exist");
    let second = drive(&mut stream, 1_000, &mut asked, &serve)
        .expect("second repeated-map chunk must succeed")
        .expect("second repeated-map segment must exist");
    assert_eq!(&first[..], b"INITONE");
    assert_eq!(&second[..], b"TWO");
    assert_eq!(paths(&asked), vec!["/init.mp4", "/one.m4s", "/two.m4s"]);
}

#[test]
fn unexpected_success_status_keeps_hls_segment_retryable() {
    let mut stream = one_segment("segment.ts", None);
    let mut asked = Vec::new();
    let result = drive(&mut stream, 1_000, &mut asked, &|_, _| (204, Vec::new()));
    let remaining = stream.segments().len();
    assert!(
        result.is_err() && remaining == 1,
        "204 must be rejected before consuming the HLS media segment; got result={result:?}, remaining={remaining}"
    );
    assert_eq!(
        result,
        Err(ChunkFailure::Refused(VideoError::DownloadError(
            "unexpected HTTP status 204 No Content for HLS media segment".to_string()
        )))
    );
}

#[test]
fn ignored_hls_byte_range_emits_only_requested_subrange() {
    let mut stream = one_segment(
        "segment.ts",
        Some(ByteRange {
            length: 2,
            offset: Some(2),
        }),
    );
    let mut asked = Vec::new();
    let result = drive(&mut stream, 1_000, &mut asked, &|_, _| {
        (200, b"abcdef".to_vec())
    });
    assert_eq!(asked[0].1.as_deref(), Some("bytes=2-3"));
    assert_eq!(
        result
            .expect("ignored Range fallback should preserve the declared HLS segment")
            .as_deref(),
        Some(b"cd".as_slice()),
        "EXT-X-BYTERANGE declares only bytes 2-3 as this media segment; a server returning the whole resource must not make the client emit the whole resource"
    );
}

#[test]
fn short_full_body_keeps_the_segment() {
    let mut stream = one_segment(
        "segment.ts",
        Some(ByteRange {
            length: 2,
            offset: Some(5),
        }),
    );
    let mut asked = Vec::new();
    let result = drive(&mut stream, 1_000, &mut asked, &|_, _| {
        (200, b"abcdef".to_vec())
    });
    assert_eq!(
        result,
        Err(ChunkFailure::Refused(VideoError::DownloadError(
            "server ignored HLS Range but returned only 6 bytes for requested bytes=5-6"
                .to_string()
        )))
    );
    assert_eq!(stream.segments().len(), 1);
}

#[test]
fn failed_media_keeps_the_initialization_section_missing() {
    let mut segment = listed("one.m4s", None);
    segment.map = Some(InitializationMap {
        uri: "init.mp4".to_string(),
        byte_range: Some(ByteRange {
            length: 2,
            offset: Some(1),
        }),
    });
    let mut stream = live_stream();
    stream
        .refresh_with(Ok(playlist_of(1, true, vec![segment])), 1_000)
        .expect("queue one segment");
    let mut asked = Vec::new();
    let failing = |path: &str, _: Option<&str>| match path {
        "/init.mp4" => (200, b"INIT".to_vec()),
        _ => (503, Vec::new()),
    };
    assert_eq!(
        drive(&mut stream, 1_000, &mut asked, &failing),
        Err(ChunkFailure::Refused(VideoError::HttpStatus(503)))
    );
    let serving = |path: &str, range: Option<&str>| match (path, range) {
        ("/init.mp4", Some("bytes=1-2")) => (206, b"NI".to_vec()),
        _ => (200, b"ONE".to_vec()),
    };
    let chunk = drive(&mut stream, 1_000, &mut asked, &serving).expect("served");
    assert_eq!(chunk.as_deref(), Some(b"NIONE".as_slice()));
    assert_eq!(
        paths(&asked),
        vec!["/init.mp4", "/one.m4s", "/init.mp4", "/one.m4s"]
    );
    let end = drive(&mut stream, 1_000, &mut asked, &serving).expect("over");
    assert!(end.is_none());
}

#[test]
fn encrypted_segment_is_unlocked_with_its_key() {
    let secret = *b"0123456789abcdef";
    let data = cbc::Encryptor::<aes::Aes128>::new(&secret.into(), &sequence_vector(7).into())
        .encrypt_padded_vec_mut::<Pkcs7>(b"secret media");
    let playlist = "#EXTM3U\n#EXT-X-TARGETDURATION:10\n#EXT-X-MEDIA-SEQUENCE:7\n#EXT-X-KEY:METHOD=AES-128,URI=\"key.bin\"\n#EXTINF:10,\none.ts\n#EXT-X-ENDLIST\n";
    let mut stream = live_stream();
    stream.refresh_playlist(playlist, 1_000).expect("a playlist");
    let mut asked = Vec::new();
    let short_key = |path: &str, _: Option<&str>| match path {
        "/key.bin" => (200, b"tiny".to_vec()),
        _ => (200, data.clone()),
    };
    assert_eq!(
        drive(&mut stream, 1_000, &mut asked, &short_key),
        Err(ChunkFailure::Refused(VideoError::EncryptionError(
            "AES-128 key must be exactly 16 bytes, got 4".to_string()
        )))
    );
    let right_key = |path: &str, _: Option<&str>| match path {
        "/key.bin" => (200, secret.to_vec()),
        _ => (200, data.clone()),
    };
    let chunk = drive(&mut stream, 1_000, &mut asked, &right_key).expect("unlocked");
    assert_eq!(chunk.as_deref(), Some(b"secret media".as_slice()));
    assert_eq!(
        paths(&asked),
        vec!["/one.ts", "/key.bin", "/one.ts", "/key.bin"]
    );
    assert!(stream.segments().is_empty());
}

#[test]
fn playlist_is_read_field_by_field() {
    let text = "#EXTM3U\n#EXT-X-TARGETDURATION:10\n#EXT-X-MEDIA-SEQUENCE:41\n#EXT-X-DISCONTINUITY-SEQUENCE:3\n#EXT-X-MAP:URI=\"init.mp4\",BYTERANGE=\"9@1\"\n#EXT-X-KEY:METHOD=AES-128,URI=\"http://keys.invalid/k\",IV=0x000000000000000000000000000000ff\n#EXTINF:10,\n#EXT-X-BYTERANGE:5@20\na.bin\n#EXT-X-DISCONTINUITY\n#EXTINF:10,\n#EXT-X-BYTERANGE:6\n./a.bin\n#EXTINF:10,\nsub/b.ts\n";
    let mut stream = live_stream();
    stream.refresh_playlist(text, 123).expect("a playlist");
    assert_eq!(stream.last_refresh(), 123);
    assert!(!stream.is_end());
    assert_eq!(stream.last_seg(), Some((4, 43)));
    let segments = stream.segments();
    let numbers: Vec<(u64, u64)> = segments.iter().map(|s| (s.0.discon_seq, s.0.seq)).collect();
    assert_eq!(numbers, vec![(3, 41), (4, 42), (4, 43)]);
    let urls: Vec<&str> = segments.iter().map(|s| s.0.url().as_str()).collect();
    assert_eq!(
        urls,
        vec![
            "http://127.0.0.1:9/a.bin",
            "http://127.0.0.1:9/a.bin",
            "http://127.0.0.1:9/sub/b.ts"
        ]
    );
    let bounds: Vec<Option<(u64, u64)>> =
        segments.iter().map(|s| s.0.data.byte_range_bounds()).collect();
    assert_eq!(bounds, vec![Some((20, 5)), Some((25, 6)), None]);
    for (segment, encryption) in segments {
        let section = segment.initialization.as_ref().expect("a section");
        assert_eq!(section.url().as_str(), "http://127.0.0.1:9/init.mp4");
        assert_eq!(section.byte_range_bounds(), Some((1, 9)));
        match encryption {
            Encryption::Aes128 { key_uri, iv } => {
                assert_eq!(key_uri.as_str(), "http://keys.invalid/k");
                assert_eq!(*iv, sequence_vector(255));
            }
            other => panic!("not AES-128: {other:?}"),
        }
    }
}

#[test]
fn text_that_is_no_playlist_is_refused() {
    let mut stream = live_stream();
    let result = stream.refresh_playlist("hello", 5);
    assert!(matches!(
        result,
        Err(ChunkFailure::Refused(VideoError::M3U8ParseError(_)))
    ));
    assert_eq!(
        stream.refresh_with(Err("Parsing Error".to_string()), 5),
        Err(ChunkFailure::Refused(VideoError::M3U8ParseError(
            "Parsing Error".to_string()
        )))
    );
    assert_eq!(stream.last_refresh(), 0);
}

#[test]
fn playlist_read_again_queues_nothing() {
    let playlist = || playlist_of(5, false, vec![listed("a.ts", None), listed("b.ts", None)]);
    let mut stream = live_stream();
    stream.apply_playlist(&playlist()).expect("a playlist");
    assert_eq!(stream.segments().len(), 2);
    stream.apply_playlist(&playlist()).expect("a playlist");
    assert_eq!(stream.segments().len(), 2);
    assert_eq!(stream.last_seg(), Some((0, 6)));
    let longer = playlist_of(
        6,
        false,
        vec![listed("b.ts", None), listed("c.ts", None)],
    );
    stream.apply_playlist(&longer).expect("a playlist");
    let numbers: Vec<u64> = stream.segments().iter().map(|s| s.0.seq).collect();
    assert_eq!(numbers, vec![5, 6, 7]);
}

#[test]
fn taken_segment_still_anchors_an_implicit_range() {
    let range = |length: u64, offset: Option<u64>| Some(ByteRange { length, offset });
    let mut stream = live_stream();
    stream
        .apply_playlist(&playlist_of(
            1,
            false,
            vec![listed("a.bin", range(4, Some(10)))],
        ))
        .expect("a playlist");
    stream
        .apply_playlist(&playlist_of(
            1,
            false,
            vec![
                listed("a.bin", range(4, Some(10))),
                listed("a.bin", range(3, None)),
            ],
        ))
        .expect("a longer playlist");
    assert_eq!(
        stream.segments()[1].0.data.byte_range_bounds(),
        Some((14, 3))
    );
}

#[test]
fn refused_segment_keeps_the_ones_before_it() {
    let broken = playlist_of(
        1,
        true,
        vec![
            listed("a.ts", None),
            listed("http://[::1", None),
            listed("c.ts", None),
        ],
    );
    let mut stream = live_stream();
    assert!(stream.refresh_with(Ok(broken), 9).is_err());
    assert_eq!(stream.last_seg(), Some((0, 1)));
    assert_eq!(stream.segments().len(), 1);
    assert_eq!(stream.last_refresh(), 0);
    assert!(!stream.is_end());
    let mended = playlist_of(
        1,
        true,
        vec![
            listed("a.ts", None),
            listed("b.ts", None),
            listed("c.ts", None),
        ],
    );
    stream.refresh_with(Ok(mended), 9).expect("mended");
    let numbers: Vec<u64> = stream.segments().iter().map(|s| s.0.seq).collect();
    assert_eq!(numbers, vec![1, 2, 3]);
    assert!(stream.is_end());
}

#[test]
fn refused_key_or_map_leaves_the_segment_untaken() {
    let mut with_key = listed("a.ts", None);
    with_key.key = Some(Key {
        method: "AES-128".to_string(),
        uri: None,
        iv: None,
        keyformat: None,
    });
    let mut stream = live_stream();
    assert_eq!(
        stream.apply_playlist(&playlist_of(1, false, vec![with_key])),
        Err(ChunkFailure::Refused(VideoError::EncryptionError(
            "No URI found for AES-128 key".to_string()
        )))
    );
    let mut with_map = listed("a.ts", None);
    with_map.map = Some(InitializationMap {
        uri: "http://[::1".to_string(),
        byte_range: None,
    });
    assert_eq!(
        stream.apply_playlist(&playlist_of(1, false, vec![with_map])),
        Err(ChunkFailure::Refused(VideoError::UrlParseError(
            "invalid IPv6 address".to_string()
        )))
    );
    assert_eq!(stream.last_seg(), None);
    assert!(stream.segments().is_empty());
}

#[test]
fn numbers_that_do_not_fit_stop_the_reading() {
    let mut stream = live_stream();
    let playlist = playlist_of(
        u64::MAX,
        false,
        vec![listed("a.ts", None), listed("b.ts", None)],
    );
    assert_eq!(
        stream.apply_playlist(&playlist),
        Err(ChunkFailure::SequenceOverflow)
    );
    assert_eq!(stream.last_seg(), Some((0, u64::MAX)));

    let mut stream = live_stream();
    let mut segment = listed("a.ts", None);
    segment.discontinuity = true;
    let playlist = Playlist {
        media_sequence: 1,
        discontinuity_sequence: u64::MAX,
        end_list: false,
        segments: vec![segment],
    };
    assert_eq!(
        stream.apply_playlist(&playlist),
        Err(ChunkFailure::SequenceOverflow)
    );
    assert_eq!(stream.last_seg(), None);
}

#[test]
fn empty_queue_waits_refreshes_and_hands_out_nothing() {
    let text = "#EXTM3U\n#EXT-X-TARGETDURATION:10\n#EXT-X-MEDIA-SEQUENCE:1\n#EXTINF:10,\none.ts\n";
    let mut stream = live_stream();
    let mut asked = Vec::new();
    let serve = |path: &str, _: Option<&str>| match path {
        "/playlist.m3u8" => (200, text.as_bytes().to_vec()),
        _ => (200, b"ONE".to_vec()),
    };
    let now = 1_000_000;
    let first = drive(&mut stream, now, &mut asked, &serve).expect("refreshed and served");
    assert_eq!(first.as_deref(), Some(b"ONE".as_slice()));
    assert_eq!(paths(&asked), vec!["/playlist.m3u8", "/one.ts"]);
    assert_eq!(stream.last_refresh(), now);

    assert_eq!(stream.wait_before_refresh(now + 5_000), 15_000);
    assert_eq!(stream.wait_before_refresh(now - 5_000), 20_000);
    assert_eq!(stream.wait_before_refresh(now + 20_000), 0);

    let second = drive(&mut stream, now + 5_000, &mut asked, &serve).expect("refreshed");
    assert_eq!(second.as_deref(), Some(b"".as_slice()));
    assert_eq!(
        paths(&asked),
        vec!["/playlist.m3u8", "/one.ts", "/playlist.m3u8"]
    );
}

#[test]
fn queued_segment_is_not_waited_for() {
    let mut stream = live_stream();
    stream
        .refresh_with(Ok(playlist_of(1, false, vec![listed("a.ts", None)])), 1_000)
        .expect("a playlist");
    assert_eq!(stream.wait_before_refresh(1_000), 0);
    let (phase, action) = stream.begin_chunk();
    assert!(matches!(phase, ChunkPhase::Started));
    assert!(matches!(action, ChunkAction::ReadClock { after: 0 }));
    let mut asked = Vec::new();
    let chunk = drive(&mut stream, 2_000, &mut asked, &|_, _| (200, b"A".to_vec()));
    assert_eq!(chunk, Ok(Some(Bytes::from_static(b"A"))));
    assert_eq!(paths(&asked), vec!["/a.ts"]);
}

#[test]
fn finished_stream_ends_without_asking() {
    let stream_over = || {
        let mut stream = live_stream();
        stream
            .refresh_with(Ok(playlist_of(1, true, Vec::new())), 1_000)
            .expect("an empty playlist");
        stream
    };
    let mut stream = stream_over();
    let (phase, action) = stream.begin_chunk();
    assert!(matches!(phase, ChunkPhase::Done));
    assert!(matches!(action, ChunkAction::End));
    let mut asked = Vec::new();
    let end = drive(&mut stream, 9_000_000, &mut asked, &|_, _| (200, Vec::new()));
    assert_eq!(end, Ok(None));
    assert!(asked.is_empty());
    assert_eq!(stream.stream_url(), "http://127.0.0.1:9/playlist.m3u8");
}

#[test]
fn slices_are_joined_in_order() {
    assert_eq!(&join_slices(b"ab", b"cd")[..], b"abcd");
    assert_eq!(&join_slices(b"", b"")[..], b"");
}

#[test]
fn segment_is_queued_and_handed_out() {
    let url = |name: &str| ResourceUrl::parse(&format!("{ROOT}/{name}")).expect("parse");
    let mut stream = live_stream();
    stream.queue_segment(
        Segment {
            data: RemoteData::new(url("one.m4s"), None),
            discon_seq: 2,
            seq: 9,
            initialization: Some(RemoteData::new(url("init.mp4"), None)),
        },
        Encryption::Unencrypted,
    );
    stream.queue_segment(
        Segment {
            data: RemoteData::new(url("two.m4s"), None),
            discon_seq: 3,
            seq: 1,
            initialization: None,
        },
        Encryption::Unencrypted,
    );
    assert_eq!(stream.last_seg(), Some((3, 1)));
    assert!(matches!(stream.plan_chunk().1, ChunkAction::FetchInitialization(_)));
    let first = stream.emit_segment(Some(b"INIT".to_vec()), b"ONE");
    assert_eq!(&first[..], b"INITONE");
    assert!(matches!(stream.plan_chunk().1, ChunkAction::FetchSegment(_)));
    let second = stream.emit_segment(None, b"TWO");
    assert_eq!(&second[..], b"TWO");
    assert!(stream.segments().is_empty());
    match stream.plan_chunk().1 {
        ChunkAction::Emit(bytes) => assert!(bytes.is_empty()),
        _ => panic!("an empty queue hands out nothing"),
    }
}

#[test]
fn driven_stream_hands_out_each_segment_once_and_in_order() {
    let text = |first: u64| {
        format!(
            "#EXTM3U\n#EXT-X-TARGETDURATION:10\n#EXT-X-MEDIA-SEQUENCE:{first}\n#EXTINF:10,\n{first}.ts\n#EXTINF:10,\n{}.ts\n#EXTINF:10,\n{}.ts\n",
            first + 1,
            first + 2
        )
    };
    let mut stream = live_stream();
    let mut handed_out: Vec<u8> = Vec::new();
    let mut now: u128 = 1_000_000;
    for first in 1_u64..6 {
        let serve = |path: &str, _: Option<&str>| match path {
            "/playlist.m3u8" => (200, text(first).into_bytes()),
            other => (200, other.as_bytes()[1..2].to_vec()),
        };
        for _ in 0..3 {
            let mut asked = Vec::new();
            let chunk = drive(&mut stream, now, &mut asked, &serve).expect("served");
            handed_out.extend_from_slice(&chunk.expect("never over"));
            now += 7_000;
        }
    }
    assert_eq!(handed_out, b"1234567");
}

fn map(uri: &str) -> Option<InitializationMap> {
    Some(InitializationMap {
        uri: uri.to_string(),
        byte_range: None,
    })
}

#[test]
fn map_of_a_taken_segment_applies_to_the_segments_behind_it() {
    let mut stream = live_stream();
    stream
        .refresh_with(Ok(playlist_of(1, false, vec![listed("a.m4s", None)])), 1_000)
        .expect("queue the first segment");
    stream.emit_segment(None, b"A");
    assert_eq!(stream.last_seg(), Some((0, 1)));
    assert!(stream.segments().is_empty());

    let text = "#EXTM3U\n#EXT-X-TARGETDURATION:10\n#EXT-X-MEDIA-SEQUENCE:1\n#EXT-X-MAP:URI=\"init.mp4\"\n#EXTINF:10,\na.m4s\n#EXTINF:10,\nb.m4s\n";
    assert_eq!(stream.refresh_playlist(text, 2_000), Ok(()));
    assert_eq!(stream.segments().len(), 1);
    let segment = &stream.segments()[0].0;
    assert_eq!(segment.url().as_str(), "http://127.0.0.1:9/b.m4s");
    let section = segment.initialization.as_ref().expect("a section");
    assert_eq!(section.url().as_str(), "http://127.0.0.1:9/init.mp4");
}

#[test]
fn new_segment_has_the_last_map_at_or_before_it() {
    let with_map = |uri: &str, section: &str| {
        let mut segment = listed(uri, None);
        segment.map = map(section);
        segment
    };
    let mut stream = live_stream();
    stream
        .apply_playlist(&playlist_of(
            1,
            false,
            vec![listed("1.m4s", None), listed("2.m4s", None)],
        ))
        .expect("two segments");
    stream
        .apply_playlist(&playlist_of(
            1,
            false,
            vec![
                with_map("1.m4s", "first.mp4"),
                with_map("2.m4s", "http://[::1"),
                listed("3.m4s", None),
                with_map("4.m4s", "second.mp4"),
                listed("5.m4s", None),
            ],
        ))
        .expect("three more segments");
    let sections: Vec<Option<&str>> = stream
        .segments()
        .iter()
        .map(|(segment, _)| segment.initialization.as_ref().map(|s| s.url().as_str()))
        .collect();
    assert_eq!(
        sections,
        vec![
            None,
            None,
            Some("http://127.0.0.1:9/first.mp4"),
            Some("http://127.0.0.1:9/second.mp4"),
            Some("http://127.0.0.1:9/second.mp4"),
        ]
    );
}

#[test]
fn row_of_implicit_ranges_covers_its_span() {
    let uri = ResourceUrl::parse("http://example.invalid/media.bin").expect("parse");
    let lengths: [u64; 5] = [4, 1, 7, 2, 9];
    let mut previous = None;
    let mut next: u64 = 10;
    for (i, length) in lengths.into_iter().enumerate() {
        let offset = if i == 0 { Some(next) } else { None };
        let normal = normalize_media_byte_range(
            &uri,
            Some(&ByteRange { length, offset }),
            &mut previous,
        );
        let expected = ByteRange {
            length,
            offset: Some(next),
        };
        assert_eq!(normal, Ok(Some(expected)));
        next += length;
    }
    assert_eq!(previous, Some((uri, 32)));
}
