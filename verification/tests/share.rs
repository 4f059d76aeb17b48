use packageurl::{location_url, share_url};

#[test]
fn share_link() {
    assert_eq!(
        share_url("https://example.org", "/purl/", "pkg%3Anpm%2Ffoo"),
        "https://example.org/purl/?purl=pkg%3Anpm%2Ffoo"
    );
}

#[test]
fn location_follows_the_input() {
    assert_eq!(location_url("/app", "", ""), "/app");
    assert_eq!(location_url("/app", "pkg:npm/foo", "pkg%3Anpm%2Ffoo"), "/app?purl=pkg%3Anpm%2Ffoo");
}
