use plugind::path::{file_name, is_same_path, is_within, join_path, parts};
use std::path::{Path, PathBuf};

fn samples(length: usize) -> Vec<String> {
    let alphabet = ["/", ".", "a", "b"];
    let mut all: Vec<String> = vec![String::new()];
    let mut last: Vec<String> = vec![String::new()];
    for _ in 0..length {
        let mut next: Vec<String> = Vec::new();
        for s in &last {
            for c in alphabet.iter() {
                next.push(format!("{}{}", s, c));
            }
        }
        all.extend(next.iter().cloned());
        last = next;
    }
    all
}

#[test]
fn paths_compare_as_in_the_standard_library() {
    let all = samples(4);
    for a in &all {
        for b in &all {
            let (p, q) = (Path::new(a), Path::new(b));
            assert_eq!(is_within(a.as_bytes(), b.as_bytes()), p.starts_with(q));
            assert_eq!(is_same_path(a.as_bytes(), b.as_bytes()), p == q);
        }
    }
}

#[test]
fn components_and_names_are_those_of_the_standard_library() {
    for a in samples(6) {
        let p = Path::new(&a);
        assert_eq!(parts(a.as_bytes()).len(), p.components().count());
        let name = file_name(a.as_bytes());
        let expected = p.file_name().map(|n| n.to_string_lossy().to_string().into_bytes());
        assert_eq!(name, expected);
    }
}

#[test]
fn paths_are_joined_as_in_the_standard_library() {
    let all = samples(3);
    for a in &all {
        for b in &all {
            let joined: PathBuf = Path::new(a).join(b);
            assert_eq!(
                join_path(a.as_bytes(), b),
                joined.to_string_lossy().to_string().into_bytes()
            );
        }
    }
}

#[test]
fn a_name_lies_in_its_directory() {
    let p = join_path(b"/etc/plugins", "battery");
    assert_eq!(p, b"/etc/plugins/battery".to_vec());
    assert!(is_within(&p, b"/etc/plugins"));
    assert!(is_within(&p, b"/etc//plugins/"));
    assert!(!is_within(b"/etc/plugins-old/battery", b"/etc/plugins"));
    assert_eq!(file_name(&p), Some(b"battery".to_vec()));
    assert_eq!(parts(&p).len(), 4);
}
