use gpu_kernel::search::{find, matches_at};

fn chars(s: &str) -> Vec<char> {
    s.chars().collect()
}

#[test]
fn matches_at_tells_where_a_token_stands() {
    let text = chars("FIELD_add(FIELD a)");
    let token = chars("FIELD");
    assert!(matches_at(&text, &token, 0));
    assert!(!matches_at(&text, &token, 1));
    assert!(matches_at(&text, &token, 10));
    assert!(!matches_at(&text, &token, 13));
}

#[test]
fn matches_at_beyond_the_text_is_false() {
    let text = chars("POINT");
    let token = chars("POINT");
    assert!(matches_at(&text, &token, 0));
    assert!(!matches_at(&text, &token, 1));
    assert!(!matches_at(&text, &token, 5));
    assert!(!matches_at(&text, &token, 6));
    assert!(!matches_at(&text, &token, usize::MAX));
    assert!(!matches_at(&chars("POIN"), &token, 0));
}

#[test]
fn matches_at_finds_the_empty_token_at_every_index() {
    let text = chars("ab");
    let token = chars("");
    assert!(matches_at(&text, &token, 0));
    assert!(matches_at(&text, &token, 2));
    assert!(!matches_at(&text, &token, 3));
}

#[test]
fn find_gives_the_leftmost_occurrence() {
    let token = chars("POINT");
    assert_eq!(find(&chars("xxPOINTxxPOINT"), &token), Some(2));
    assert_eq!(find(&chars("POINTxxPOINT"), &token), Some(0));
    assert_eq!(find(&chars("xxxxxxxPOINT"), &token), Some(7));
}

#[test]
fn find_gives_none_where_the_token_does_not_stand() {
    let token = chars("POINT");
    assert_eq!(find(&chars("xxPOINxxOINT"), &token), None);
    assert_eq!(find(&chars("POIN"), &token), None);
    assert_eq!(find(&chars(""), &token), None);
}

#[test]
fn find_in_a_part_of_a_text() {
    let text = chars("xxPOINTxx");
    let token = chars("POINT");
    assert_eq!(find(&text[0..7], &token), Some(2));
    assert_eq!(find(&text[0..6], &token), None);
    assert_eq!(find(&text[3..], &token), None);
}

#[test]
fn find_gives_the_start_for_the_empty_token() {
    let token = chars("");
    assert_eq!(find(&chars("abc"), &token), Some(0));
    assert_eq!(find(&chars(""), &token), Some(0));
}

#[test]
fn find_on_overlapping_occurrences() {
    let token = chars("aa");
    assert_eq!(find(&chars("aaaa"), &token), Some(0));
    assert_eq!(find(&chars("baaa"), &token), Some(1));
    assert_eq!(find(&chars("ba"), &token), None);
}
