use coder::assets::shipped_themes;
use coder::highlight::{HlSets, Highlighter};

fn text_of(line: &[((u8, u8, u8), String)]) -> String {
    line.iter().map(|p| p.1.as_str()).collect()
}

#[test]
fn bundled_themes_are_listed_in_order() {
    let sets = HlSets::load();
    let names = sets.theme_names();
    for name in [
        "InspiredGitHub",
        "Solarized (dark)",
        "Solarized (light)",
        "base16-eighties.dark",
        "base16-mocha.dark",
        "base16-ocean.dark",
        "base16-ocean.light",
    ] {
        assert!(names.iter().any(|n| n == name), "missing theme: {}", name);
    }
    assert_eq!(names.len(), 15);
    assert!(names.windows(2).all(|w| w[0] < w[1]));
}

#[test]
fn builtin_themes_listed() {
    let names = HlSets::load().theme_names();
    let shipped = shipped_themes();
    assert!(names.len() >= 7 + shipped.len());
    for (name, _) in shipped {
        assert!(names.iter().any(|n| n == name), "missing theme: {}", name);
    }
    assert!(names.iter().any(|n| n == "base16-eighties.dark"));
}

#[test]
fn every_embedded_theme_loads() {
    let sets = HlSets::load();
    for (name, _) in shipped_themes() {
        let theme = sets.themes.themes.get(name).unwrap_or_else(|| panic!("did not load: {}", name));
        assert!(theme.settings.background.is_some(), "no background: {}", name);
    }
}

#[test]
fn dracula_keeps_its_background() {
    let sets = HlSets::load();
    let bg = sets.themes.themes.get("Dracula").unwrap().settings.background.unwrap();
    assert_eq!((bg.r, bg.g, bg.b), (0x28, 0x2a, 0x36));
}

#[test]
fn toml_files_resolve_to_toml_syntax() {
    let hl = Highlighter::for_path(HlSets::load(), Some("config.toml"));
    assert_eq!(hl.syntax_name(), "TOML");
}

#[test]
fn commit_diff_tabs_borrow_the_changed_files_syntax() {
    let hl = Highlighter::for_path(HlSets::load(), Some("2ea14b1.rs"));
    assert_eq!(hl.syntax_name(), "Rust");
}

#[test]
fn long_line_is_capped_but_fully_covered() {
    let len = 512 + 500;
    let line: String = "[".repeat(len) + "\n";
    let mut hl = Highlighter::for_path(HlSets::load(), Some("doc.md"));
    assert!(hl.highlight(&line, 0, 0, false, usize::MAX));
    let out = hl.cached_from(0);
    let covered: usize = out[0].iter().map(|(_, s)| s.chars().count()).sum();
    assert_eq!(covered, len, "every character is still emitted");
}

#[test]
fn incremental_matches_full_highlight() {
    let text = "# heading\n\n```rust\nfn main() {}\n```\n\nsome *text* here\n";
    let mut full = Highlighter::for_path(HlSets::load(), Some("doc.md"));
    assert!(full.highlight(text, 0, 0, false, usize::MAX));
    let want = full.cached_from(0);

    let mut inc = Highlighter::for_path(HlSets::load(), Some("doc.md"));
    assert!(inc.highlight(text, 0, usize::MAX, false, 2));
    let first = inc.cached_from(0);
    assert_eq!(first.len(), 2, "only the requested lines are cached");
    assert_eq!(&first[..], &want[..2]);
    assert!(inc.highlight(text, 0, usize::MAX, false, usize::MAX));
    let all = inc.cached_from(0);
    assert_eq!(all, want, "resumed highlight equals the full one");
}

#[test]
fn edit_rehighlights_from_dirty_line() {
    let text = "line one\nline two\nline three\n";
    let mut hl = Highlighter::for_path(HlSets::load(), Some("doc.md"));
    hl.highlight(text, 0, 0, false, usize::MAX);

    let edited = "line one\nline TWO changed\nline three\n";
    hl.highlight(edited, 1, 1, false, usize::MAX);
    let got = hl.cached_from(0);

    let mut fresh = Highlighter::for_path(HlSets::load(), Some("doc.md"));
    fresh.highlight(edited, 0, 0, false, usize::MAX);
    let want = fresh.cached_from(0);
    assert_eq!(got, want);
}

#[test]
fn single_line_edit_that_shifts_state_repaints_tail() {
    let text = "let a = 1;\nlet b = 2;\nlet c = 3;\n";
    let mut hl = Highlighter::for_path(HlSets::load(), Some("code.rs"));
    hl.highlight(text, 0, 0, false, usize::MAX);

    let edited = "/* open comment\nlet b = 2;\nlet c = 3;\n";
    hl.highlight(edited, 1, 0, false, usize::MAX);
    let got = hl.cached_from(0);

    let mut fresh = Highlighter::for_path(HlSets::load(), Some("code.rs"));
    fresh.highlight(edited, 0, 0, false, usize::MAX);
    let want = fresh.cached_from(0);
    assert_eq!(got, want, "lines below a state-changing edit must repaint");
}

#[test]
fn wide_edit_rebuilds_tail() {
    let text = "alpha\nbeta\ngamma\n";
    let mut hl = Highlighter::for_path(HlSets::load(), Some("doc.md"));
    hl.highlight(text, 0, 0, false, usize::MAX);

    let edited = "alpha\nbe\nta\ngamma\n";
    hl.highlight(edited, 1, 1, true, usize::MAX);
    let got = hl.cached_from(0);

    let mut fresh = Highlighter::for_path(HlSets::load(), Some("doc.md"));
    fresh.highlight(edited, 0, 0, false, usize::MAX);
    let want = fresh.cached_from(0);
    assert_eq!(got, want, "wide edit must rebuild the shifted tail");
}

#[test]
fn toml_line_highlights_multiple_scopes() {
    let mut hl = Highlighter::for_path(HlSets::load(), Some("config.toml"));
    assert!(hl.highlight("theme = \"dark\" # note\n", 0, 0, false, usize::MAX));
    let lines = hl.cached_from(0);
    let colors: std::collections::HashSet<_> = lines[0].iter().map(|(c, _)| *c).collect();
    assert!(colors.len() >= 3, "expected varied coloring, got {:?}", colors);
}

#[test]
fn a_narrow_edit_that_misstates_the_line_count_still_colors_fresh() {
    let mut hl = Highlighter::for_path(HlSets::load(), Some("code.rs"));
    hl.highlight("let a = 1;\nlet b = 2;\n", 0, 0, false, usize::MAX);
    hl.highlight("let a = 1;\n/* x\nlet b = 2;\n", 1, 1, false, usize::MAX);
    let got = hl.cached_from(0);
    let mut fresh = Highlighter::for_path(HlSets::load(), Some("code.rs"));
    fresh.highlight("let a = 1;\n/* x\nlet b = 2;\n", 0, 0, false, usize::MAX);
    assert_eq!(got, fresh.cached_from(0));
}

#[test]
fn highlighting_colors_each_line_without_its_ending() {
    let mut h = Highlighter::for_path(HlSets::load(), Some("src/main.rs"));
    assert!(h.highlight("fn main() {}\nlet x = 1;\n", 1, usize::MAX, false, 10));
    let lines = h.cached_from(0);
    assert_eq!(lines.len(), 2);
    assert_eq!(text_of(&lines[0]), "fn main() {}");
    assert_eq!(text_of(&lines[1]), "let x = 1;");
    assert!(lines[0].len() > 1, "a Rust line is colored in several pieces");
    assert!(lines.iter().all(|l| l.iter().all(|p| !p.1.is_empty())));
    assert_eq!(h.cached_from(1).len(), 1);
    assert_eq!(h.cached_from(9).len(), 0);
}

#[test]
fn only_the_window_is_highlighted_and_scrolling_extends_it() {
    let mut h = Highlighter::for_path(HlSets::load(), Some("notes.txt"));
    let text = "a\nb\nc\nd\ne\n";
    assert!(h.highlight(text, 1, usize::MAX, false, 2));
    assert_eq!(h.cached_from(0).len(), 2);
    assert!(h.highlight(text, 1, usize::MAX, false, 4));
    let lines = h.cached_from(0);
    assert_eq!(lines.len(), 4);
    assert_eq!(text_of(&lines[3]), "d");
}

#[test]
fn an_edit_recolors_from_the_changed_line() {
    let mut h = Highlighter::for_path(HlSets::load(), Some("lib.rs"));
    assert!(h.highlight("let a = 1;\nlet b = 2;\nlet c = 3;\n", 1, usize::MAX, false, 10));
    assert!(h.highlight("let a = 1;\nlet bb = 2;\nlet c = 3;\n", 2, 1, false, 10));
    let lines = h.cached_from(0);
    assert_eq!(text_of(&lines[1]), "let bb = 2;");
    assert_eq!(text_of(&lines[2]), "let c = 3;");
    assert!(h.highlight("let a = 1;\n", 3, 1, true, 10));
    let lines = h.cached_from(0);
    assert_eq!(lines.len(), 1);
    assert_eq!(text_of(&lines[0]), "let a = 1;");
}

#[test]
fn a_long_line_keeps_its_tail_plain() {
    let mut h = Highlighter::for_path(HlSets::load(), Some("x.rs"));
    let long = "a".repeat(600);
    assert!(h.highlight(&long, 1, usize::MAX, false, 1));
    let lines = h.cached_from(0);
    assert_eq!(text_of(&lines[0]), long);
    assert_eq!(lines[0].last().unwrap().1.len(), 88);
}

#[test]
fn a_new_theme_drops_the_cache() {
    let mut h = Highlighter::for_path(HlSets::load(), None);
    assert!(h.highlight("x\n", 1, usize::MAX, false, 5));
    assert_eq!(h.cached_from(0).len(), 1);
    h.set_theme("base16-eighties.dark");
    assert_eq!(h.cached_from(0).len(), 1);
    h.set_theme("InspiredGitHub");
    assert_eq!(h.cached_from(0).len(), 0);
    assert!(h.highlight("x\n", 1, usize::MAX, false, 5));
    assert_eq!(h.cached_from(0).len(), 1);
    h.invalidate();
    assert_eq!(h.cached_from(0).len(), 0);
}

#[test]
fn a_file_gets_the_syntax_of_its_extension_or_name() {
    let rs = Highlighter::for_path(HlSets::load(), Some("src/main.rs"));
    let mk = Highlighter::for_path(HlSets::load(), Some("Makefile"));
    let none = Highlighter::for_path(HlSets::load(), Some("notes.unknownext"));
    let text = "x = 1\n";
    let mut rs = rs;
    let mut mk = mk;
    let mut none = none;
    assert!(rs.highlight(text, 1, usize::MAX, false, 5));
    assert!(mk.highlight(text, 1, usize::MAX, false, 5));
    assert!(none.highlight(text, 1, usize::MAX, false, 5));
    assert_eq!(none.cached_from(0)[0].len(), 1, "plain text is one piece");
}

const TINY_THEME: &str = r#"<?xml version="1.0" encoding="UTF-8"?>
<!DOCTYPE plist PUBLIC "-//Apple//DTD PLIST 1.0//EN" "http://www.apple.com/DTDs/PropertyList-1.0.dtd">
<plist version="1.0">
<dict>
  <key>name</key><string>Tiny</string>
  <key>settings</key>
  <array>
    <dict>
      <key>settings</key>
      <dict>
        <key>foreground</key><string>#FFFFFF</string>
        <key>background</key><string>#000000</string>
      </dict>
    </dict>
  </array>
</dict>
</plist>
"#;

#[test]
fn extra_themes_that_parse_are_listed() {
    let sets = HlSets::load_with(&vec![
        ("Tiny".to_string(), TINY_THEME.to_string()),
        ("Broken".to_string(), "not a theme".to_string()),
    ], &vec![]);
    let names = sets.theme_names();
    assert!(names.iter().any(|n| n == "Tiny"));
    assert!(!names.iter().any(|n| n == "Broken"));
    assert_eq!(names.len(), 16);
    let mut h = Highlighter::for_path(sets, Some("a.txt"));
    h.set_theme("Tiny");
    assert!(h.highlight("hello\n", 1, usize::MAX, false, 5));
    assert_eq!(h.cached_from(0)[0][0].0, (255, 255, 255));
}

const TINY_SYNTAX: &str = "%YAML 1.2\n---\nname: Zeta\nfile_extensions: [zzq]\nscope: source.zeta\ncontexts:\n  main:\n    - match: '\\bzeta\\b'\n      scope: keyword.control.zeta\n";

#[test]
fn extra_syntaxes_that_parse_are_used() {
    let sets = HlSets::load_with(&vec![], &vec![TINY_SYNTAX.to_string(), "not: [a syntax".to_string()]);
    let h = Highlighter::for_path(sets, Some("x.zzq"));
    assert_eq!(h.syntax_name(), "Zeta");
    let plain = Highlighter::for_path(HlSets::load(), Some("x.zzq"));
    assert_eq!(plain.syntax_name(), "Plain Text");
}
