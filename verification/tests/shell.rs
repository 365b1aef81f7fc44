use coder::shell::{path_candidates, read_dir_for, split_word};

fn e(n: &str, d: bool) -> (String, bool) {
    (n.to_string(), d)
}

#[test]
fn a_word_splits_at_its_last_slash() {
    assert_eq!(split_word("src/ma"), ("src/".to_string(), "ma".to_string()));
    assert_eq!(split_word("ma"), (String::new(), "ma".to_string()));
    assert_eq!(split_word("a/b/"), ("a/b/".to_string(), String::new()));
    assert_eq!(split_word(""), (String::new(), String::new()));
}

#[test]
fn home_and_empty_directories_are_resolved() {
    assert_eq!(read_dir_for("~/x/", Some("/home/u")), "/home/u/x/");
    assert_eq!(read_dir_for("~/x/", None), "~/x/");
    assert_eq!(read_dir_for("", Some("/home/u")), ".");
    assert_eq!(read_dir_for("src/", Some("/home/u")), "src/");
}

#[test]
fn matching_entries_are_offered_in_order() {
    let entries = vec![e("main.rs", false), e("macros", true), e("lib.rs", false), e(".mail", false)];
    assert_eq!(path_candidates("src/", "ma", entries.clone()), vec!["src/macros/", "src/main.rs"]);
    assert_eq!(path_candidates("src/", ".m", entries.clone()), vec!["src/.mail"]);
    assert_eq!(path_candidates("", "", entries), vec!["lib.rs", "macros/", "main.rs"]);
}
