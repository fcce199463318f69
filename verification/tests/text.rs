use cmd_lib::text::{join_from, kept_len, name_char, split_assignment, to_chars, trim_end};

fn strings(parts: &[&str]) -> Vec<String> {
    parts.iter().map(|s| s.to_string()).collect()
}

#[test]
fn join_puts_the_separator_between_neighbours() {
    assert_eq!(join_from(&strings(&["a", "b", "c"]), 0, ", "), "a, b, c");
    assert_eq!(join_from(&strings(&["a", "b", "c"]), 1, " "), "b c");
    assert_eq!(join_from(&strings(&["a"]), 0, " | "), "a");
}

#[test]
fn join_of_nothing_is_empty() {
    assert_eq!(join_from(&strings(&[]), 0, ", "), "");
    assert_eq!(join_from(&strings(&["a", "b"]), 2, ", "), "");
}

#[test]
fn join_keeps_empty_parts() {
    assert_eq!(join_from(&strings(&["", "x", ""]), 0, "-"), "-x-");
}

#[test]
fn trim_end_removes_trailing_whitespace_only() {
    assert_eq!(trim_end("rust\n"), "rust");
    assert_eq!(trim_end("  a b \t\r\n"), "  a b");
    assert_eq!(trim_end("5\n"), "5");
    assert_eq!(trim_end("no trailing"), "no trailing");
}

#[test]
fn trim_end_of_whitespace_is_empty() {
    assert_eq!(trim_end(""), "");
    assert_eq!(trim_end(" \n\t "), "");
}

#[test]
fn trim_end_knows_whitespace_beyond_ascii() {
    assert_eq!(trim_end("x\u{a0}\u{2003}"), "x");
    assert_eq!(trim_end("line one\nline two\n\n"), "line one\nline two");
}

#[test]
fn trim_end_agrees_with_the_standard_library() {
    for s in ["", "a", " a ", "a\n\n", "\u{3000}", "é \u{2028}", "tab\there\t"] {
        assert_eq!(trim_end(s), s.trim_end());
    }
}

#[test]
fn assignment_splits_at_its_only_equals_sign() {
    assert_eq!(split_assignment("FOO=bar"), Some(("FOO".to_string(), "bar".to_string())));
    assert_eq!(split_assignment("a_1=x y"), Some(("a_1".to_string(), "x y".to_string())));
    assert_eq!(split_assignment("FOO="), Some(("FOO".to_string(), "".to_string())));
}

#[test]
fn assignment_may_have_an_empty_key() {
    assert_eq!(split_assignment("=x"), Some(("".to_string(), "x".to_string())));
    assert_eq!(split_assignment("="), Some(("".to_string(), "".to_string())));
}

#[test]
fn text_without_one_equals_sign_is_no_assignment() {
    assert_eq!(split_assignment("echo"), None);
    assert_eq!(split_assignment(""), None);
    assert_eq!(split_assignment("a=b=c"), None);
    assert_eq!(split_assignment("a=="), None);
}

#[test]
fn key_must_be_made_of_name_characters() {
    assert_eq!(split_assignment("a-b=c"), None);
    assert_eq!(split_assignment("--opt=val"), None);
    assert_eq!(split_assignment("a b=c"), None);
    assert_eq!(split_assignment("é=c"), None);
    assert_eq!(split_assignment("/path=x"), None);
}

#[test]
fn value_may_hold_anything_but_an_equals_sign() {
    assert_eq!(split_assignment("K=é-/ "), Some(("K".to_string(), "é-/ ".to_string())));
}

#[test]
fn kept_length_ends_behind_the_last_character_that_is_not_blank() {
    assert_eq!(kept_len(&vec![]), 0);
    assert_eq!(kept_len(&vec![true, true]), 0);
    assert_eq!(kept_len(&vec![false, true, true]), 1);
    assert_eq!(kept_len(&vec![true, false, true, false]), 4);
    assert_eq!(kept_len(&vec![true, false, false, true]), 3);
}

#[test]
fn name_characters() {
    for c in ['a', 'z', 'A', 'Z', '0', '9', '_'] {
        assert!(name_char(c));
    }
    for c in ['-', '=', ' ', '.', '/', 'é', '$', '{'] {
        assert!(!name_char(c));
    }
}

#[test]
fn characters_of_a_text() {
    assert_eq!(to_chars("aé\n"), vec!['a', 'é', '\n']);
    assert_eq!(to_chars(""), Vec::<char>::new());
}

#[test]
fn whitespace_is_what_the_standard_library_says_for_every_character() {
    let listed = |c: char| {
        let n = c as u32;
        (0x09..=0x0D).contains(&n)
            || n == 0x20
            || n == 0x85
            || n == 0xA0
            || n == 0x1680
            || (0x2000..=0x200A).contains(&n)
            || n == 0x2028
            || n == 0x2029
            || n == 0x202F
            || n == 0x205F
            || n == 0x3000
    };
    let mut buffer = [0u8; 4];
    for n in 0..=0x10FFFFu32 {
        if let Some(c) = char::from_u32(n) {
            assert_eq!(c.is_whitespace(), listed(c), "U+{:04X}", n);
            if n < 0x3100 {
                // a text of this one character is cut off exactly where it is whitespace
                let text = c.encode_utf8(&mut buffer);
                assert_eq!(trim_end(text).is_empty(), listed(c), "U+{:04X}", n);
            }
        }
    }
}
