use ralph_robot::output::{append_terminal_output, render_utf8_suffix_with_byte_limit};

#[test]
fn render_utf8_suffix_with_byte_limit_preserves_character_boundary() {
    let bytes = "a\u{00e9}\u{00e9}\u{00e9}".as_bytes();

    let output = render_utf8_suffix_with_byte_limit(bytes, 5);

    assert_eq!(output, "\u{00e9}\u{00e9}");
    assert!(output.len() <= 5);
}

#[test]
fn append_terminal_output_preserves_split_utf8_for_later_reads() {
    let mut output: Vec<u8> = Vec::new();
    let mut truncated = false;

    append_terminal_output(&mut output, &mut truncated, b"a\xc3", Some(5));
    assert_eq!(render_utf8_suffix_with_byte_limit(&output, 5), "a");

    append_terminal_output(&mut output, &mut truncated, b"\xa9\xc3\xa9\xc3\xa9", Some(5));
    let rendered = render_utf8_suffix_with_byte_limit(&output, 5);

    assert_eq!(rendered, "\u{00e9}\u{00e9}");
    assert!(rendered.len() <= 5);
    assert!(!rendered.contains('\u{fffd}'));
}

#[test]
fn nothing_is_shown_under_a_limit_of_zero() {
    assert_eq!(render_utf8_suffix_with_byte_limit(b"abc", 0), "");
    assert_eq!(render_utf8_suffix_with_byte_limit(b"", 0), "");
}

#[test]
fn all_is_shown_under_a_large_limit() {
    assert_eq!(render_utf8_suffix_with_byte_limit(b"abc", 3), "abc");
    assert_eq!(render_utf8_suffix_with_byte_limit(b"abc", usize::MAX), "abc");
    assert_eq!(render_utf8_suffix_with_byte_limit(b"", 7), "");
}

#[test]
fn a_character_cut_off_at_the_end_is_left_out() {
    assert_eq!(render_utf8_suffix_with_byte_limit(b"ab\xe2\x82", 10), "ab");
    assert_eq!(render_utf8_suffix_with_byte_limit(b"ab\xf0\x9f\x98", 10), "ab");
    assert_eq!(render_utf8_suffix_with_byte_limit(b"\xf0\x9f\x98", 3), "");
    assert_eq!(render_utf8_suffix_with_byte_limit(b"\xf0\x9f\x98", 2), "");
}

#[test]
fn invalid_bytes_are_replaced_within_the_limit() {
    assert_eq!(render_utf8_suffix_with_byte_limit(b"a\xffb", 10), "a\u{fffd}b");
    // The replacement has three bytes, so that only a part of the text fits.
    assert_eq!(render_utf8_suffix_with_byte_limit(b"a\xffb", 3), "b");
    assert_eq!(render_utf8_suffix_with_byte_limit(b"a\xffb", 4), "\u{fffd}b");
    // An overlong form and a surrogate are no starts of characters.
    assert_eq!(render_utf8_suffix_with_byte_limit(b"ab\xe0\x80", 10), "ab\u{fffd}\u{fffd}");
    assert_eq!(render_utf8_suffix_with_byte_limit(b"ab\xed\xa0", 10), "ab\u{fffd}\u{fffd}");
}

#[test]
fn the_replacements_agree_with_the_standard_library() {
    let bytes = b"x\xc3\x28\xf0\x28\x8c\xbc\xff\xfe-\xe2\x28\xa1y";
    assert_eq!(
        render_utf8_suffix_with_byte_limit(bytes, 1000),
        String::from_utf8_lossy(bytes).into_owned()
    );
}

#[test]
fn what_is_shown_fits_every_limit() {
    let bytes = "\u{1f600}a\u{20ac}\u{e9}z\u{1f601}".as_bytes();
    for end in 0..=bytes.len() {
        for max in 0..=bytes.len() + 2 {
            let shown = render_utf8_suffix_with_byte_limit(&bytes[..end], max);
            assert!(shown.len() <= max);
            assert!(!shown.contains('\u{fffd}'));
        }
    }
}

#[test]
fn three_bytes_beyond_the_limit_are_kept() {
    let mut output: Vec<u8> = Vec::new();
    let mut truncated = false;
    append_terminal_output(&mut output, &mut truncated, b"12345678", Some(5));
    assert_eq!(output, b"12345678");
    assert!(!truncated);
    append_terminal_output(&mut output, &mut truncated, b"9", Some(5));
    assert_eq!(output, b"23456789");
    assert!(truncated);
}

#[test]
fn a_limit_of_zero_keeps_nothing() {
    let mut output: Vec<u8> = Vec::new();
    let mut truncated = false;
    append_terminal_output(&mut output, &mut truncated, b"", Some(0));
    assert!(!truncated);
    append_terminal_output(&mut output, &mut truncated, b"a", Some(0));
    assert!(output.is_empty());
    assert!(truncated);
}

#[test]
fn without_a_limit_all_is_kept() {
    let mut output: Vec<u8> = Vec::new();
    let mut truncated = false;
    append_terminal_output(&mut output, &mut truncated, &[7; 5000], None);
    append_terminal_output(&mut output, &mut truncated, &[8; 5000], None);
    assert_eq!(output.len(), 10000);
    append_terminal_output(&mut output, &mut truncated, b"!", Some(u64::MAX));
    assert_eq!(output.len(), 10001);
    assert!(!truncated);
}

#[test]
fn chunks_make_no_difference() {
    let stream = "one \u{e9}\u{20ac} two \u{1f600} three".as_bytes();
    for limit in [0u64, 1, 2, 5, 9, 100] {
        let mut at_once: Vec<u8> = Vec::new();
        let mut dropped_at_once = false;
        append_terminal_output(&mut at_once, &mut dropped_at_once, stream, Some(limit));
        let mut bytewise: Vec<u8> = Vec::new();
        let mut dropped_bytewise = false;
        for byte in stream {
            append_terminal_output(&mut bytewise, &mut dropped_bytewise, &[*byte], Some(limit));
        }
        assert_eq!(at_once, bytewise);
        assert_eq!(dropped_at_once, dropped_bytewise);
        assert_eq!(
            render_utf8_suffix_with_byte_limit(&bytewise, limit as usize),
            render_utf8_suffix_with_byte_limit(stream, limit as usize)
        );
        assert_eq!(
            dropped_bytewise || bytewise.len() as u64 > limit,
            stream.len() as u64 > limit
        );
    }
}
