use relate_mail_core::codec::parse_query_params;
use relate_mail_core::codec::query_param;
use relate_mail_core::codec::u64_to_dec;
use relate_mail_core::codec::urlencoding_decode;
use relate_mail_core::codec::urlencoding_encode;

#[test]
fn encode_space_and_reserved() {
    assert_eq!(urlencoding_encode("hello world"), "hello%20world");
    assert_eq!(urlencoding_encode("a/b?c=d&e"), "a%2Fb%3Fc%3Dd%26e");
}

#[test]
fn encode_unreserved_passthrough() {
    assert_eq!(
        urlencoding_encode("ABCxyz019-_.~"),
        "ABCxyz019-_.~"
    );
}

#[test]
fn encode_multibyte_utf8() {
    assert_eq!(urlencoding_encode("\u{e9}"), "%C3%A9");
}

#[test]
fn decode_basic() {
    assert_eq!(urlencoding_decode("a+b%20c"), "a b c");
    assert_eq!(urlencoding_decode("hello%2Fworld"), "hello/world");
    assert_eq!(urlencoding_decode("%41%42"), "AB");
}

#[test]
fn decode_malformed_pair_dropped() {
    assert_eq!(urlencoding_decode("a%zzb"), "ab");
}

#[test]
fn decode_short_trailing_pair_pads_with_zero() {
    // "%4" reads the missing low digit as '0', so it decodes as 0x40.
    assert_eq!(urlencoding_decode("%4"), "@");
    assert_eq!(urlencoding_decode("%"), "\u{0}");
}

#[test]
fn decode_accepts_leading_plus_in_pair() {
    // A numeric parser with an optional plus sign reads "+5" as 5.
    assert_eq!(urlencoding_decode("%+5"), "\u{5}");
}

#[test]
fn round_trip_ascii() {
    let cases = ["", "hello world", "a=b&c=d", "x!@#$%^&*()", "path/to/file.txt"];
    for s in cases {
        assert_eq!(urlencoding_decode(&urlencoding_encode(s)), s);
    }
}

#[test]
fn round_trip_utf8() {
    let cases = ["h\u{e9}llo", "sn\u{f6}w \u{2603}", "\u{1f4e7} mail", "\u{e9}"];
    for s in cases {
        assert_eq!(urlencoding_decode(&urlencoding_encode(s)), s);
    }
}

#[test]
fn decode_reassembles_multibyte_utf8() {
    assert_eq!(urlencoding_decode("%C3%A9"), "\u{e9}");
}

#[test]
fn decode_replaces_invalid_utf8() {
    assert_eq!(urlencoding_decode("%FF"), "\u{fffd}");
}

#[test]
fn parse_query_basic() {
    let params = parse_query_params("code=XYZ&state=abc");
    assert_eq!(params.len(), 2);
    assert_eq!(params[0], ("code".to_string(), "XYZ".to_string()));
    assert_eq!(params[1], ("state".to_string(), "abc".to_string()));
    assert_eq!(query_param(&params, "code"), Some("XYZ".to_string()));
    assert_eq!(query_param(&params, "state"), Some("abc".to_string()));
    assert_eq!(query_param(&params, "error"), None);
}

#[test]
fn parse_query_decodes_keys_and_values() {
    let params = parse_query_params("redirect%5Furi=http%3A%2F%2Fx&msg=a+b");
    assert_eq!(query_param(&params, "redirect_uri"), Some("http://x".to_string()));
    assert_eq!(query_param(&params, "msg"), Some("a b".to_string()));
}

#[test]
fn parse_query_empty_input() {
    let params = parse_query_params("");
    assert_eq!(params.len(), 1);
    assert_eq!(params[0], (String::new(), String::new()));
}

#[test]
fn parse_query_pair_without_equals() {
    let params = parse_query_params("flag&x=1");
    assert_eq!(params[0], ("flag".to_string(), String::new()));
    assert_eq!(query_param(&params, "x"), Some("1".to_string()));
}

#[test]
fn parse_query_last_duplicate_wins() {
    let params = parse_query_params("k=1&k=2");
    assert_eq!(query_param(&params, "k"), Some("2".to_string()));
}

#[test]
fn decimal_rendering() {
    assert_eq!(u64_to_dec(0), "0");
    assert_eq!(u64_to_dec(7), "7");
    assert_eq!(u64_to_dec(10), "10");
    assert_eq!(u64_to_dec(23847), "23847");
    assert_eq!(u64_to_dec(300), "300");
}
