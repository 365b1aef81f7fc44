use coder::listing::dir_listing;

fn entry(p: &str, d: bool) -> (String, bool) {
    (p.to_string(), d)
}

#[test]
fn listing_puts_directories_first_and_hides_the_repository() {
    let got = dir_listing(vec![
        entry("/d/b.txt", false),
        entry("/d/.git", true),
        entry("/d/Zed", true),
        entry("/d/a.txt", false),
        entry("/d/A", true),
    ]);
    assert_eq!(got, vec![entry("/d/A", true), entry("/d/Zed", true), entry("/d/a.txt", false), entry("/d/b.txt", false)]);
}

#[test]
fn listing_ignores_ascii_case_and_keeps_ties_in_reading_order() {
    let got = dir_listing(vec![entry("/d/README", false), entry("/d/Makefile", false), entry("/e/readme", false)]);
    assert_eq!(got, vec![entry("/d/Makefile", false), entry("/d/README", false), entry("/e/readme", false)]);
}

#[test]
fn listing_of_nothing_is_empty() {
    assert!(dir_listing(Vec::new()).is_empty());
}
