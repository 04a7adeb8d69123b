use promptforge_cli::text::{chars_of, decimal_text, find_from, has_part, hexadecimal_text};

#[test]
fn numbers_are_rendered() {
    for n in [0, 7, 9, 10, 99, 100, 4096, u64::MAX] {
        assert_eq!(decimal_text(n), format!("{n}"));
        assert_eq!(hexadecimal_text(n, 16), format!("{n:016x}"));
    }
    assert_eq!(hexadecimal_text(0x1234, 2), "34");
    assert_eq!(hexadecimal_text(0x1234, 0), "");
}

#[test]
fn characters_are_found() {
    let chars = chars_of("aé=b=");
    assert_eq!(chars, vec!['a', 'é', '=', 'b', '=']);
    assert_eq!(find_from(&chars, '=', 0), 2);
    assert_eq!(find_from(&chars, '=', 3), 4);
    assert_eq!(find_from(&chars, 'x', 0), 5);
    assert_eq!(find_from(&chars, '=', 5), 5);
}

#[test]
fn parts_lie_between_the_separators() {
    let has = |text: &str, part: &str| has_part(&chars_of(text), '/', &chars_of(part));
    assert!(has("a/b/c", "b"));
    assert!(has("a/b/c", "c"));
    assert!(has("a", "a"));
    assert!(has("a//b", ""));
    assert!(has("", ""));
    assert!(!has("a/b", "a/b"));
    assert!(!has("ab/c", "b"));
}
