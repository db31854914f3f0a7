use secure_proxy::ascii::{
    all_visible, byte_is_blank, eq_ignore_ascii_case, find_byte, same_bytes, to_lower,
};
use secure_proxy::target::{has_scheme_separator, resolve};
use secure_proxy::text::{contains_bytes, str_eq, str_is_encoded_as};

#[test]
fn visible_text_is_what_a_header_value_reads_as() {
    for b in 0..=255u8 {
        let value = hyper::header::HeaderValue::from_bytes(&[b]);
        let reads = match value {
            Ok(v) => v.to_str().is_ok(),
            Err(_) => false,
        };
        assert_eq!(all_visible(&[b]), reads);
        assert_eq!(all_visible(&[b'a', b, b'z']), reads);
    }
    assert!(all_visible(b""));
    assert!(all_visible(b"Basic dXNlcjpwYXNz"));
    assert!(!all_visible(b"Basic dXNlcjpwYXNz\n"));
}

#[test]
fn blanks_are_space_and_tab() {
    for b in 0..=255u8 {
        assert_eq!(byte_is_blank(b), b == b' ' || b == b'\t');
    }
}

#[test]
fn lower_case_follows_ascii() {
    for b in 0..=255u8 {
        assert_eq!(to_lower(b), b.to_ascii_lowercase());
    }
}

#[test]
fn case_is_ignored_for_ascii_letters_only() {
    assert!(eq_ignore_ascii_case(b"Basic", b"bASIC"));
    assert!(eq_ignore_ascii_case(b"", b""));
    assert!(eq_ignore_ascii_case(b"x-1_[", b"X-1_["));
    assert!(!eq_ignore_ascii_case(b"Basic", b"Basic "));
    assert!(!eq_ignore_ascii_case(b"Basic", b"Basis"));
    assert!(!eq_ignore_ascii_case(b"@", b"`"));
    assert!(!eq_ignore_ascii_case(b"[", b"{"));
    assert!(!eq_ignore_ascii_case("É".as_bytes(), "é".as_bytes()));
    for a in 0..=255u8 {
        for b in 0..=255u8 {
            assert_eq!(eq_ignore_ascii_case(&[a], &[b]), [a].eq_ignore_ascii_case(&[b]));
        }
    }
}

#[test]
fn bytes_are_compared_whole() {
    assert!(same_bytes(b"", b""));
    assert!(same_bytes(b"abc", b"abc"));
    assert!(!same_bytes(b"abc", b"abd"));
    assert!(!same_bytes(b"abc", b"ab"));
    assert!(!same_bytes(b"ab", b"abc"));
}

#[test]
fn first_byte_is_found() {
    assert_eq!(find_byte(b"a:b:c", b':'), Some(1));
    assert_eq!(find_byte(b":", b':'), Some(0));
    assert_eq!(find_byte(b"abc", b':'), None);
    assert_eq!(find_byte(b"", b':'), None);
}

#[test]
fn run_of_bytes_is_found() {
    assert!(contains_bytes(b"https://x", b"://"));
    assert!(contains_bytes(b"://", b"://"));
    assert!(contains_bytes(b"a::/://", b"://"));
    assert!(contains_bytes(b"abc", b""));
    assert!(contains_bytes(b"", b""));
    assert!(!contains_bytes(b"", b"://"));
    assert!(!contains_bytes(b":/", b"://"));
    assert!(!contains_bytes(b"a:/b/", b"://"));
}

#[test]
fn text_is_searched_by_characters() {
    assert!(has_scheme_separator("ü://"));
    assert!(!has_scheme_separator("ü:/"));
    // U+FF1A, the full-width colon, is no colon
    assert!(!has_scheme_separator("a：//b"));
    assert_eq!(resolve("a：b").dial_address(), "a：b:443");
    assert_eq!(resolve("ü:1").dial_address(), "ü:1");
}

#[test]
fn text_is_compared_whole() {
    assert!(str_eq("GET", "GET"));
    assert!(!str_eq("GET", "get"));
    assert!(!str_eq("GET", "GET "));
    assert!(str_eq("", ""));
    assert!(str_eq("zoë", "zoë"));
    assert!(str_is_encoded_as("zoë", &[0x7a, 0x6f, 0xc3, 0xab]));
    assert!(!str_is_encoded_as("zoë", &[0x7a, 0x6f, 0xeb]));
    assert!(!str_is_encoded_as("zoe", &[0x7a, 0x6f, 0xc3, 0xab]));
}
