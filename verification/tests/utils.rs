use packageurl::{cut, rcut, to_lowercase};
use std::borrow::Cow;

#[test]
fn test_cut() {
    let buf = "A:B:C";
    assert_eq!(cut(buf, b':'), ("A", "B:C"));
    assert_eq!(cut(buf, b','), ("A:B:C", ""));
}

#[test]
fn test_rcut() {
    let buf = "A:B:C";
    assert_eq!(rcut(buf, b':'), ("A:B", "C"));
    assert_eq!(rcut(buf, b','), ("", "A:B:C"));
}

#[test]
fn to_lowercase_simple() {
    assert_eq!(to_lowercase("foo"), "foo");
    assert_eq!(to_lowercase("Foo"), "foo");
    assert_eq!(to_lowercase("FoO"), "foo");
    assert_eq!(to_lowercase("fOo"), "foo");
    assert_eq!(to_lowercase("FOO"), "foo");
}

#[test]
fn cut_edges() {
    assert_eq!(cut("", b':'), ("", ""));
    assert_eq!(cut(":", b':'), ("", ""));
    assert_eq!(cut(":abc", b':'), ("", "abc"));
    assert_eq!(cut("abc:", b':'), ("abc", ""));
    assert_eq!(cut("pkg:npm/foo", b'/'), ("pkg:npm", "foo"));
}

#[test]
fn rcut_edges() {
    assert_eq!(rcut("", b':'), ("", ""));
    assert_eq!(rcut(":", b':'), ("", ""));
    assert_eq!(rcut("abc:", b':'), ("abc", ""));
    assert_eq!(rcut(":abc", b':'), ("", "abc"));
    assert_eq!(rcut("a/b/c@1.0", b'@'), ("a/b/c", "1.0"));
}

#[test]
fn cut_around_multibyte_characters() {
    assert_eq!(cut("é:ü:ß", b':'), ("é", "ü:ß"));
    assert_eq!(rcut("é:ü:ß", b':'), ("é:ü", "ß"));
    assert_eq!(cut("日本#語", b'#'), ("日本", "語"));
}

#[test]
fn cut_parts_reassemble_the_input() {
    let input = "x=1&y=2&z=3";
    let (a, b) = cut(input, b'&');
    assert_eq!(format!("{a}&{b}"), input);
    assert!(!a.contains('&'));
    let (c, d) = rcut(input, b'&');
    assert_eq!(format!("{c}&{d}"), input);
    assert!(!d.contains('&'));
}

#[test]
fn to_lowercase_borrows_when_nothing_is_uppercase() {
    assert!(matches!(to_lowercase("already-lower"), Cow::Borrowed(_)));
    assert!(matches!(to_lowercase(""), Cow::Borrowed(_)));
    assert!(matches!(to_lowercase("Upper"), Cow::Owned(_)));
}

#[test]
fn to_lowercase_unicode() {
    assert_eq!(to_lowercase("ÉCOLE"), "école");
    assert_eq!(to_lowercase("straße"), "straße");
    assert_eq!(to_lowercase("ΣΑΣ"), "σας");
}
