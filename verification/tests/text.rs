use plugind::text::{
    contains, copy_option, copy_strings, first_pieces, is_white_space, join, lines, lists,
    owned, pieces, same_option, same_strings, same_text, starts_with, trim, trim_end, words,
};

/// All texts of up to five characters that matter for cutting.
fn samples() -> Vec<String> {
    let alphabet = ['a', ' ', '\n', '\r', '/', '\u{a0}'];
    let mut all: Vec<String> = vec![String::new()];
    let mut last: Vec<String> = vec![String::new()];
    for _ in 0..5 {
        let mut next: Vec<String> = Vec::new();
        for s in &last {
            for c in alphabet.iter() {
                let mut t = s.clone();
                t.push(*c);
                next.push(t);
            }
        }
        all.extend(next.iter().cloned());
        last = next;
    }
    all
}

#[test]
fn white_space_is_the_unicode_property() {
    let mut n: u32 = 0;
    while n <= 0x10ffff {
        if let Some(c) = char::from_u32(n) {
            assert_eq!(is_white_space(c), c.is_whitespace());
        }
        n += 1;
    }
}

#[test]
fn lines_are_those_of_the_standard_library() {
    for s in samples() {
        assert_eq!(lines(&s), s.lines().collect::<Vec<&str>>());
    }
    assert_eq!(lines("one\r\ntwo\nthree\r"), vec!["one", "two", "three\r"]);
    assert_eq!(lines("\n\n"), vec!["", ""]);
    assert!(lines("").is_empty());
}

#[test]
fn words_are_those_of_the_standard_library() {
    for s in samples() {
        assert_eq!(words(&s), s.split_whitespace().collect::<Vec<&str>>());
    }
    assert_eq!(words("  OnEnabled\tOnReload  "), vec!["OnEnabled", "OnReload"]);
}

#[test]
fn pieces_are_those_of_the_standard_library() {
    for s in samples() {
        assert_eq!(pieces(&s, '/'), s.split('/').collect::<Vec<&str>>());
        for n in 0..5usize {
            assert_eq!(first_pieces(&s, n, ' '), s.splitn(n, ' ').collect::<Vec<&str>>());
        }
    }
}

#[test]
fn trimming_is_that_of_the_standard_library() {
    for s in samples() {
        assert_eq!(trim(&s), s.trim());
        assert_eq!(trim_end(&s, '/'), s.trim_end_matches('/'));
    }
    assert_eq!(trim_end("42%%", '%'), "42");
}

#[test]
fn searching_is_that_of_the_standard_library() {
    let parts = ["", "a", "a/", "/ ", "\r\n", "aaaaaa", "\u{a0}a"];
    for s in samples() {
        for part in parts.iter() {
            assert_eq!(contains(&s, part), s.contains(part));
            assert_eq!(starts_with(&s, part), s.starts_with(part));
            assert_eq!(same_text(&s, part), s == *part);
        }
    }
}

#[test]
fn strings_are_joined_and_compared() {
    let list = vec!["a".to_string(), "".to_string(), "b".to_string()];
    assert_eq!(join(&list, ", "), "a, , b");
    assert_eq!(join(&Vec::new(), ", "), "");
    assert!(lists(&list, ""));
    assert!(lists(&list, "b"));
    assert!(!lists(&list, "ab"));
    assert!(same_strings(&list, &copy_strings(&list)));
    assert!(!same_strings(&list, &vec!["a".to_string()]));
    assert_eq!(owned(&vec!["x", "y"]), vec!["x".to_string(), "y".to_string()]);
    let some = Some("t".to_string());
    assert!(same_option(&some, &copy_option(&some)));
    assert!(!same_option(&some, &None));
    assert!(same_option(&None, &None));
}

#[test]
fn words_with_spaces_between_them_are_read_back() {
    let list = vec!["OnEnabled".to_string(), "OnBatteryLow".to_string(), "x".to_string()];
    let text = join(&list, " ");
    assert_eq!(text, "OnEnabled OnBatteryLow x");
    assert_eq!(owned(&words(&text)), list);
}
