use ralph_robot::text::{
    decimal_text, is_blank, is_white_space, join, signed_decimal_text, trim,
};

#[test]
fn white_space_agrees_with_the_standard_library() {
    for c in '\0'..=char::MAX {
        assert_eq!(is_white_space(c), c.is_whitespace(), "{:x}", c as u32);
    }
}

#[test]
fn trimming_agrees_with_the_standard_library() {
    for sample in ["", " ", "a", " a", "a ", "\t a b \r\n", "\u{a0}\u{3000}x\u{2003}", "\u{200b}"] {
        assert_eq!(trim(sample), sample.trim());
        assert_eq!(is_blank(sample), sample.trim().is_empty());
    }
}

#[test]
fn numbers_agree_with_the_standard_library() {
    for n in [0u64, 1, 9, 10, 99, 100, 1234567890, u64::MAX] {
        assert_eq!(decimal_text(n), n.to_string());
    }
    for n in [0i64, 7, -1, -10, 42, i64::MAX, i64::MIN] {
        assert_eq!(signed_decimal_text(n), n.to_string());
    }
}

#[test]
fn joining_agrees_with_the_standard_library() {
    let lists: [&[&str]; 4] = [&[], &["a"], &["a", "b"], &["", "x", ""]];
    for list in lists {
        let parts: Vec<String> = list.iter().map(|part| part.to_string()).collect();
        assert_eq!(join(&parts, "'/'"), list.join("'/'"));
    }
}
