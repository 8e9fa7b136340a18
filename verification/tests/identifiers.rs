use vs_scaffold::guid::{generate_guid, join_segments, CHARSET};

fn in_alphabet(c: char) -> bool {
    c.is_ascii_uppercase() || ('1'..='9').contains(&c)
}

#[test]
fn charset_is_capitals_and_digits_without_zero() {
    assert_eq!(CHARSET, "ABCDEFGHIJKLMNOPQRSTUVWXYZ123456789");
    assert_eq!(CHARSET.chars().count(), 35);
    assert!(CHARSET.chars().all(in_alphabet));
    assert!(!CHARSET.contains('0'));
}

#[test]
fn identifier_has_the_fixed_shape() {
    for _ in 0..500 {
        let id = generate_guid();
        let chars: Vec<char> = id.chars().collect();
        assert_eq!(chars.len(), 31, "{id}");
        for (i, c) in chars.iter().enumerate() {
            if i == 8 || i == 13 || i == 18 {
                assert_eq!(*c, '-', "{id}");
            } else {
                assert!(in_alphabet(*c), "{id}");
            }
        }
    }
}

#[test]
fn identifier_has_segments_of_8_4_4_12() {
    let id = generate_guid();
    let lengths: Vec<usize> = id.split('-').map(|segment| segment.len()).collect();
    assert_eq!(lengths, vec![8, 4, 4, 12]);
}

#[test]
fn identifier_never_holds_a_zero_or_a_small_letter() {
    for _ in 0..500 {
        let id = generate_guid();
        assert!(!id.contains('0'), "{id}");
        assert!(!id.chars().any(|c| c.is_ascii_lowercase()), "{id}");
    }
}

#[test]
fn two_identifiers_differ() {
    assert_ne!(generate_guid(), generate_guid());
}

#[test]
fn identifiers_use_more_than_one_character() {
    let id = generate_guid();
    let first = id.chars().next().unwrap();
    let mut seen_other = id.chars().any(|c| c != '-' && c != first);
    for _ in 0..20 {
        seen_other = seen_other || generate_guid().chars().any(|c| c != '-' && c != first);
    }
    assert!(seen_other);
}

#[test]
fn segments_are_joined_by_hyphens() {
    assert_eq!(
        join_segments("ABCDEFGH", "1234", "WXYZ", "A1B2C3D4E5F6"),
        "ABCDEFGH-1234-WXYZ-A1B2C3D4E5F6"
    );
}

#[test]
fn joining_takes_segments_as_they_are() {
    assert_eq!(join_segments("", "", "", ""), "---");
    assert_eq!(join_segments("a", "", "b-c", "\u{e9}"), "a--b-c-\u{e9}");
}
