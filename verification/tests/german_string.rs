use german_string::{slice_starts_with, ConstructError, GermanString};

#[test]
fn test_german_string() {
    let s = GermanString::new("");
    assert_eq!(s.len(), 0);
    assert!(s.is_empty());
    assert!(s.is_short());
    assert_eq!(s.prefix(), "".as_bytes());
    assert_eq!(s.str(), "");
    assert!(!s.starts_with("a"));
    assert!(s.starts_with(""));

    let s = GermanString::new("Hallo, Welt!");
    assert_eq!(s.len(), 12);
    assert!(s.is_short());
    assert_eq!(s.prefix(), "Hall".as_bytes());
    assert_eq!(s.str(), "Hallo, Welt!");
    assert!(s.starts_with(""));
    assert!(s.starts_with("H"));
    assert!(s.starts_with("Hallo"));
    assert!(s.starts_with("Hallo, Welt!"));
    assert!(!s.starts_with("Hallo, Welt! "));
    assert!(!s.starts_with("F"));

    let s = GermanString::new("Hello, World!");
    assert_eq!(s.len(), 13);
    assert!(!s.is_short());
    assert_eq!(s.prefix(), "Hell".as_bytes());
    assert_eq!(s.str(), "Hello, World!");
    assert!(s.starts_with(""));
    assert!(s.starts_with("H"));
    assert!(s.starts_with("Hello"));
    assert!(s.starts_with("Hello, World!"));
    assert!(!s.starts_with("Hello, World! "));
    assert!(!s.starts_with("F"));

    let s: String = "Hallo, Welt!".into();
    let s: GermanString = GermanString::from_string(s);
    assert_eq!(s.len(), 12);
    assert!(s.is_short());
    assert_eq!(s.prefix(), "Hall".as_bytes());
    assert_eq!(s.str(), "Hallo, Welt!");
    assert!(s.starts_with(""));
    assert!(s.starts_with("H"));
    assert!(s.starts_with("Hallo"));
    assert!(s.starts_with("Hallo, Welt!"));
    assert!(!s.starts_with("Hallo, Welt! "));
    assert!(!s.starts_with("F"));
}

#[test]
fn test_round_trip() {
    let inputs = [
        "",
        "a",
        "abcd",
        "abcde",
        "exactly12byt",
        "exactly13byte",
        "a much longer string that certainly needs a heap buffer",
    ];
    for input in inputs {
        let g = GermanString::new(input);
        assert_eq!(g.str(), input);
        assert_eq!(g.len(), input.len());
    }
}

#[test]
fn test_variant_selection() {
    for n in 0..40usize {
        let input: String = "x".repeat(n);
        let g = GermanString::new(&input);
        assert_eq!(g.is_short(), n <= 12);
        assert_eq!(g.is_empty(), n == 0);
        assert_eq!(g.len(), n);
    }
}

#[test]
fn test_prefix_correctness() {
    let inputs = ["", "a", "ab", "abc", "abcd", "abcde", "Hallo, Welt!", "Hello, World!"];
    for input in inputs {
        let g = GermanString::new(input);
        let k = input.len().min(4);
        assert_eq!(g.prefix(), &input.as_bytes()[..k]);
    }
}

#[test]
fn test_matching_equivalence() {
    let haystacks = ["", "a", "abc", "abcd", "abcde", "Hallo, Welt!", "Hello, World!"];
    let needles = [
        "",
        "a",
        "b",
        "ab",
        "abc",
        "abcd",
        "abce",
        "abcde",
        "abcdf",
        "abcdef",
        "Hal",
        "Hall",
        "Hallo",
        "Hello, W",
        "Hello, X",
        "Hello, World!",
        "Hello, World! and more",
    ];
    for h in haystacks {
        let g = GermanString::new(h);
        for n in needles {
            assert_eq!(g.starts_with(n), h.starts_with(n), "haystack {:?} needle {:?}", h, n);
        }
    }
}

#[test]
fn test_adopt_matches_copy() {
    let long = "Hello, World!";
    let adopted = GermanString::from_string(String::from(long));
    let copied = GermanString::new(long);
    assert_eq!(adopted.str(), copied.str());
    assert_eq!(adopted.len(), copied.len());
    assert_eq!(adopted.prefix(), copied.prefix());
    assert_eq!(adopted.is_short(), copied.is_short());

    let short = "tiny";
    let adopted = GermanString::from_string(String::from(short));
    let copied = GermanString::new(short);
    assert_eq!(adopted.str(), copied.str());
    assert_eq!(adopted.len(), copied.len());
    assert_eq!(adopted.prefix(), copied.prefix());
    assert_eq!(adopted.is_short(), copied.is_short());
}

#[test]
fn test_try_constructors() {
    let g = GermanString::try_new("Hello, World!").unwrap();
    assert_eq!(g.str(), "Hello, World!");
    let g = GermanString::try_from_string(String::from("Hallo, Welt!")).unwrap();
    assert_eq!(g.str(), "Hallo, Welt!");
    assert_eq!(
        ConstructError::LengthOverflow,
        ConstructError::LengthOverflow
    );
}

#[test]
fn test_multibyte_content() {
    // "ä" is two bytes (0xC3 0xA4): lengths and the cached prefix are
    // byte-oriented, so the prefix may end inside a character.
    let g = GermanString::new("äbcd");
    assert_eq!(g.len(), 5);
    assert!(g.is_short());
    assert_eq!(g.prefix(), &[0xC3, 0xA4, b'b', b'c']);
    assert_eq!(g.str(), "äbcd");
    assert!(g.starts_with("äb"));
    assert!(!g.starts_with("öb"));

    let g = GermanString::new("äbcdefghijklm");
    assert_eq!(g.len(), 14);
    assert!(!g.is_short());
    assert_eq!(g.prefix(), &[0xC3, 0xA4, b'b', b'c']);
    assert!(g.starts_with("äbcdefg"));
    assert!(!g.starts_with("äbcdefgx"));
}

#[test]
fn test_slice_starts_with() {
    assert!(slice_starts_with(b"abc", b""));
    assert!(slice_starts_with(b"abc", b"ab"));
    assert!(slice_starts_with(b"abc", b"abc"));
    assert!(!slice_starts_with(b"abc", b"abcd"));
    assert!(!slice_starts_with(b"abc", b"ac"));
    assert!(!slice_starts_with(b"", b"a"));
}
