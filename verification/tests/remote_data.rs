use hls_stream::error::VideoError;
use hls_stream::playlist::ByteRange;
use hls_stream::remote_data::{requested_part, take_part, RangeUse, RemoteData};
use hls_stream::resource_url::{make_absolute_url, url_from, ParsedUrl, ResourceUrl};
use hls_stream::segment::Segment;
use hls_stream::status::Delivery;

fn remote(range: ByteRange) -> RemoteData {
    RemoteData::new(
        ResourceUrl::parse("https://example.invalid/segment.ts")
            .expect("test segment URL must parse"),
        Some(range),
    )
}

fn resource(path: &str, range: Option<ByteRange>) -> RemoteData {
    let url = ResourceUrl::parse(&format!("http://127.0.0.1:9/{path}")).expect("parse URL");
    RemoteData::new(url, range)
}

#[test]
fn normal_byte_range_formats_expected_header() {
    let data = remote(ByteRange {
        length: 4,
        offset: Some(10),
    });
    assert_eq!(data.byte_range_string().as_deref(), Some("bytes=10-13"));
}

#[test]
fn byte_range_end_overflow_is_saturated_without_panicking() {
    let data = remote(ByteRange {
        length: 2,
        offset: Some(u64::MAX),
    });
    assert_eq!(
        data.byte_range_string().as_deref(),
        Some("bytes=18446744073709551615-18446744073709551615"),
        "range end should clamp instead of wrapping"
    );
}

#[test]
fn large_byte_range_length_does_not_wrap_end() {
    let data = remote(ByteRange {
        length: u64::MAX,
        offset: Some(2),
    });
    assert_eq!(
        data.byte_range_string().as_deref(),
        Some("bytes=2-18446744073709551615"),
        "range end should clamp at u64::MAX"
    );
}

#[test]
fn ignored_initialization_map_range_emits_only_requested_subrange() {
    let data = resource(
        "init.mp4",
        Some(ByteRange {
            length: 2,
            offset: Some(2),
        }),
    );
    assert_eq!(data.byte_range_string().as_deref(), Some("bytes=2-3"));
    let (bytes, _) = data
        .fetch(200, b"abcdef", data.url().clone())
        .expect("fetch initialization map");
    assert_eq!(
        bytes,
        b"cd",
        "EXT-X-MAP BYTERANGE declares only bytes 2-3 as the initialization section; a server returning the whole resource must not make the client emit the whole resource"
    );
}

#[test]
fn partial_initialization_map_response_remains_unchanged() {
    let data = resource(
        "init.mp4",
        Some(ByteRange {
            length: 2,
            offset: Some(2),
        }),
    );
    assert_eq!(data.byte_range_string().as_deref(), Some("bytes=2-3"));
    let (bytes, _) = data
        .fetch(206, b"cd", data.url().clone())
        .expect("fetch partial initialization map");
    assert_eq!(
        bytes, b"cd",
        "a real 206 body is already the requested range"
    );
}

#[test]
fn ordinary_remote_data_200_still_returns_full_body() {
    let data = resource("file.bin", None);
    assert_eq!(data.byte_range_string(), None);
    let (bytes, _) = data
        .fetch(200, b"abcdef", data.url().clone())
        .expect("fetch ordinary RemoteData");
    assert_eq!(
        bytes, b"abcdef",
        "non-ranged 200 behavior must remain unchanged"
    );
}

#[test]
fn remote_status_decides_what_is_delivered() {
    assert_eq!(RemoteData::fetch_status(200), Ok(Delivery::Full));
    assert_eq!(RemoteData::fetch_status(206), Ok(Delivery::Partial));
    assert_eq!(RemoteData::fetch_status(204), Ok(Delivery::Partial));
    for status in [100_u16, 199, 300, 304, 404, 500] {
        assert_eq!(
            RemoteData::fetch_status(status),
            Err(VideoError::BodyCannotParsed)
        );
    }
}

#[test]
fn bounds_start_at_zero_without_an_offset() {
    assert_eq!(
        resource(
            "a",
            Some(ByteRange {
                length: 7,
                offset: None
            })
        )
        .byte_range_bounds(),
        Some((0, 7))
    );
    assert_eq!(resource("a", None).byte_range_bounds(), None);
    assert_eq!(
        remote(ByteRange {
            length: 0,
            offset: Some(5)
        })
        .byte_range_string()
        .as_deref(),
        Some("bytes=5-5")
    );
}

#[test]
fn parts_that_cannot_be_taken_say_why() {
    let short = "server ignored Range but returned only 3 bytes for requested bytes=2-3";
    assert_eq!(
        take_part(RangeUse::Remote, 2, 2, b"abc"),
        Err(VideoError::DownloadError(short.to_string()))
    );
    let short = "server ignored HLS Range but returned only 3 bytes for requested bytes=2-3";
    assert_eq!(
        take_part(RangeUse::Segment, 2, 2, b"abc"),
        Err(VideoError::DownloadError(short.to_string()))
    );
    assert_eq!(
        take_part(RangeUse::Remote, u64::MAX, 2, b"abc"),
        Err(VideoError::DownloadError(
            "remote byte-range end overflow".to_string()
        ))
    );
    assert_eq!(
        take_part(RangeUse::Segment, 2, u64::MAX, b"abc"),
        Err(VideoError::DownloadError(
            "HLS byte-range end overflow".to_string()
        ))
    );
    assert_eq!(take_part(RangeUse::Remote, 1, 2, b"abc"), Ok(b"bc".as_slice()));
    assert_eq!(take_part(RangeUse::Remote, 0, 0, b""), Ok(b"".as_slice()));
}

#[test]
fn either_kind_of_reply_gives_the_same_bytes() {
    let resource = b"0123456789";
    for start in 0_u64..10 {
        for length in 0_u64..(10 - start + 1) {
            let part = &resource[start as usize..(start + length) as usize];
            for purpose in [RangeUse::Remote, RangeUse::Segment] {
                let bounds = Some((start, length));
                assert_eq!(
                    requested_part(purpose, bounds, Delivery::Full, resource),
                    Ok(part)
                );
                assert_eq!(
                    requested_part(purpose, bounds, Delivery::Partial, part),
                    Ok(part)
                );
            }
        }
    }
}

#[test]
fn relative_addresses_are_joined_and_absolute_ones_are_kept() {
    let base = "http://example.invalid/path/playlist.m3u8";
    let address = |url: &str| {
        make_absolute_url(base, url)
            .expect("resolves")
            .as_str()
            .to_string()
    };
    assert_eq!(address("a.ts"), "http://example.invalid/path/a.ts");
    assert_eq!(address("../b.ts"), "http://example.invalid/b.ts");
    assert_eq!(address("/c.ts"), "http://example.invalid/c.ts");
    assert_eq!(address("HTTP://Other.Invalid:80/d"), "http://other.invalid/d");
}

#[test]
fn bad_addresses_say_why() {
    let refused = |base: &str, url: &str| make_absolute_url(base, url).err().expect("refused");
    assert_eq!(
        refused("http://example.invalid/", "http://[::1"),
        VideoError::UrlParseError("invalid IPv6 address".to_string())
    );
    assert_eq!(
        refused("playlist.m3u8", "a.ts"),
        VideoError::UrlParseError("relative URL without a base".to_string())
    );
    assert_eq!(
        ResourceUrl::parse("a.ts").err().expect("refused"),
        VideoError::UrlParseError("relative URL without a base".to_string())
    );
    assert_eq!(
        ResourceUrl::parse("http://").err().expect("refused"),
        VideoError::UrlParseError("empty host".to_string())
    );
    assert_eq!(
        url_from(ParsedUrl::Invalid("no".to_string())).err().expect("refused"),
        VideoError::UrlParseError("no".to_string())
    );
    assert_eq!(
        url_from(ParsedUrl::Absolute("http://a.invalid/".to_string()))
            .expect("an address")
            .as_str(),
        "http://a.invalid/"
    );
}

#[test]
fn same_resource_means_same_address_and_same_range() {
    let range = |length: u64, offset: Option<u64>| Some(ByteRange { length, offset });
    let a = resource("a", range(4, Some(2)));
    assert!(a.same_as(&resource("./a", range(4, Some(2)))));
    assert!(a.same_as(&a.clone()));
    assert!(!a.same_as(&resource("b", range(4, Some(2)))));
    assert!(!a.same_as(&resource("a", range(5, Some(2)))));
    assert!(!a.same_as(&resource("a", range(4, None))));
    assert!(!a.same_as(&resource("a", range(4, Some(3)))));
    assert!(!a.same_as(&resource("a", None)));
    assert_eq!(a, a.clone());
}

#[test]
fn segment_is_where_its_media_is() {
    let segment = Segment {
        data: resource("one.ts", None),
        discon_seq: 0,
        seq: 1,
        initialization: None,
    };
    assert_eq!(segment.url().as_str(), "http://127.0.0.1:9/one.ts");
}

#[test]
fn fetched_bytes_come_with_the_final_address() {
    let moved = || ResourceUrl::parse("http://mirror.invalid/moved.bin").expect("parse URL");
    let data = resource("file.bin", None);
    for status in [200_u16, 204, 206, 299] {
        assert_eq!(
            data.fetch(status, b"abc", moved()),
            Ok((b"abc".to_vec(), moved()))
        );
    }
    for status in [199_u16, 300, 404] {
        assert_eq!(
            data.fetch(status, b"abc", moved()),
            Err(VideoError::BodyCannotParsed)
        );
    }
    let ranged = remote(ByteRange {
        length: 1,
        offset: Some(1),
    });
    assert_eq!(
        ranged.fetch(200, b"abc", moved()),
        Ok((b"b".to_vec(), moved()))
    );
    assert_eq!(ranged.received(Delivery::Partial, b"b"), Ok(b"b".to_vec()));
}
