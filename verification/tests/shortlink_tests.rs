use omega::shortlink::{format_with_dashes, normalize_short, LinkEntry, ShortLinks};

#[test]
fn dashes_group_by_four() {
    assert_eq!(format_with_dashes(""), "");
    assert_eq!(format_with_dashes("abcd"), "abcd");
    assert_eq!(format_with_dashes("abcdefgh"), "abcd-efgh");
    assert_eq!(format_with_dashes("abcdefghij"), "abcd-efgh-ij");
}

#[test]
fn normalization_strips_dashes_and_confusables() {
    assert_eq!(normalize_short("abcd-efgh"), "abcdefgh");
    assert_eq!(normalize_short("QOIl"), "00ll");
    assert_eq!(normalize_short("a-b-c"), "abc");
}

#[test]
fn short_length_grows_with_the_store() {
    let mut store = ShortLinks::new();
    assert_eq!(store.short_length(), 4);
    for i in 0..2000 {
        store.entries.push(LinkEntry {
            short: format!("c{}", i),
            long: String::new(),
        });
    }
    assert_eq!(store.short_length(), 8);
}

#[test]
fn add_and_get_round_trip() {
    let mut store = ShortLinks::new();
    let display = store.add_short_link("https://example.net/long");
    let code = display.strip_prefix("omega.tensamin.net/direct/").unwrap();
    assert_eq!(
        store.get_short_link(code),
        Some("https://example.net/long".to_string())
    );
    assert_eq!(store.get_short_link("nope"), None);
}

#[test]
fn fresh_codes_do_not_collide() {
    let mut store = ShortLinks::new();
    let a = store.add_short_link("one");
    let b = store.add_short_link("two");
    assert_ne!(a, b);
    let code_a = a.strip_prefix("omega.tensamin.net/direct/").unwrap();
    let code_b = b.strip_prefix("omega.tensamin.net/direct/").unwrap();
    assert_eq!(store.get_short_link(code_a), Some("one".to_string()));
    assert_eq!(store.get_short_link(code_b), Some("two".to_string()));
}
