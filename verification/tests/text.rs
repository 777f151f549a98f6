use hls_stream::text::{
    chars_of, decimal_text, parse_u64, same_text, split_once, strip_prefix,
};

#[test]
fn numbers_are_written_and_read_back() {
    for n in [0_u64, 7, 10, 42, 100, 65_536, u64::MAX] {
        assert_eq!(decimal_text(n), n.to_string());
        assert_eq!(parse_u64(&decimal_text(n)), Some(n));
    }
}

#[test]
fn numbers_are_read_as_the_standard_library_reads_them() {
    for text in [
        "", "+", "-", "0", "+0", "-0", "007", "+12", "++1", "1 ", " 1", "1_0", "18446744073709551615",
        "18446744073709551616", "99999999999999999999999x", "x", "١",
    ] {
        assert_eq!(parse_u64(text), text.parse::<u64>().ok(), "{text:?}");
    }
}

#[test]
fn texts_are_taken_apart_as_the_standard_library_does() {
    for text in ["", "/", "a/b", "a/b/c", "ab", "/b", "é/ü"] {
        assert_eq!(split_once(text, '/'), text.split_once('/'), "{text:?}");
    }
    for text in ["", "bytes", "bytes ", "bytes 1", " bytes 1", "Bytes 1"] {
        assert_eq!(
            strip_prefix(text, "bytes "),
            text.strip_prefix("bytes "),
            "{text:?}"
        );
    }
    assert_eq!(chars_of("aé"), vec!['a', 'é']);
    assert!(same_text("aé", "aé"));
    assert!(!same_text("a", "A"));
}
