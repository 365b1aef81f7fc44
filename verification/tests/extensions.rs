use coder::extensions::{parse_command, ExtensionRegistry, LanguageConfig};

fn lang(exts: &[&str], lsp: &str, formatter: &str, linter: &str) -> LanguageConfig {
    LanguageConfig {
        extensions: exts.iter().map(|e| e.to_string()).collect(),
        lsp: lsp.to_string(),
        formatter: formatter.to_string(),
        linter: linter.to_string(),
    }
}

/// The built-in language sections: rust and python.
fn seed() -> Vec<(String, LanguageConfig)> {
    vec![
        ("python".to_string(), lang(&["py"], "ruff server", "ruff format -", "")),
        ("rust".to_string(), lang(&["rs"], "rust-analyzer", "rustfmt --edition 2021", "")),
    ]
}

fn config_named<'a>(v: &'a [(String, LanguageConfig)], name: &str) -> &'a LanguageConfig {
    &v.iter().rev().find(|(n, _)| n == name).unwrap().1
}

#[test]
fn config_defaults_resolve_by_extension() {
    let reg = ExtensionRegistry::from_config(&seed());
    assert_eq!(reg.language_for_path("main.rs").map(|l| &l.id[..]), Some("rust"));
    assert_eq!(reg.language_for_path("a/b/app.py").map(|l| &l.id[..]), Some("python"));
    assert!(reg.language_for_path("notes.txt").is_none());
    assert_eq!(
        reg.language_for_path("main.rs").and_then(|l| l.lsp.as_ref()).map(|s| &s.command[..]),
        Some("rust-analyzer")
    );
}

#[test]
fn command_string_splits_into_binary_and_args() {
    let cfg = vec![("rust".to_string(), lang(&["rs"], "", "rustfmt --edition 2021", ""))];
    let reg = ExtensionRegistry::from_config(&cfg);
    let l = reg.language_for_path("x.rs").unwrap();
    let fmt = l.formatter.as_ref().unwrap();
    assert_eq!(fmt.command, "rustfmt");
    assert_eq!(fmt.args, ["--edition", "2021"]);
    assert!(l.lsp.is_none());
}

#[test]
fn to_language_configs_round_trips_commands() {
    let reg = ExtensionRegistry::from_config(&seed());
    let langs = reg.to_language_configs();
    assert_eq!(config_named(&langs, "rust").lsp, "rust-analyzer");
    assert_eq!(config_named(&langs, "rust").formatter, "rustfmt --edition 2021");
    assert_eq!(config_named(&langs, "python").lsp, "ruff server");
    assert_eq!(config_named(&langs, "python").formatter, "ruff format -");
}

#[test]
fn tool_commands_are_sorted_and_distinct() {
    let reg = ExtensionRegistry::from_config(&seed());
    assert_eq!(reg.tool_commands(), ["ruff", "rust-analyzer", "rustfmt"]);
}

#[test]
fn whitespace_only_command_is_not_configured() {
    assert!(parse_command("  \t ").is_none());
    let (c, a) = parse_command("  ruff   format\t- ").unwrap();
    assert_eq!(c, "ruff");
    assert_eq!(a, ["format", "-"]);
}

#[test]
fn a_later_language_wins_an_extension() {
    let cfg = vec![
        ("a".to_string(), lang(&["x"], "", "", "")),
        ("b".to_string(), lang(&["x", "y"], "", "", "")),
    ];
    let reg = ExtensionRegistry::from_config(&cfg);
    assert_eq!(reg.language_for_path("f.x").map(|l| &l.id[..]), Some("b"));
    assert_eq!(reg.manifests().len(), 2);
}

#[test]
fn joined_commands_split_back_the_same() {
    let reg = ExtensionRegistry::from_config(&seed());
    let again = ExtensionRegistry::from_config(&reg.to_language_configs());
    assert_eq!(again.to_language_configs().len(), 2);
    let l = again.language_for_path("m.rs").unwrap();
    assert_eq!(l.formatter.as_ref().unwrap().args, ["--edition", "2021"]);
}

#[test]
fn config_round_trip_normalizes_command_whitespace() {
    let cfg = vec![
        ("go".to_string(), lang(&["go"], "  gopls   serve ", "gofmt", "  ")),
        ("zig".to_string(), lang(&["zig", "zon"], "zls", "", "zig\tfmt  --check")),
    ];
    let back = ExtensionRegistry::from_config(&cfg).to_language_configs();
    assert_eq!(back.len(), 2);
    let go = config_named(&back, "go");
    assert_eq!(go.extensions, ["go"]);
    assert_eq!(go.lsp, "gopls serve");
    assert_eq!(go.formatter, "gofmt");
    assert_eq!(go.linter, "");
    let zig = config_named(&back, "zig");
    assert_eq!(zig.extensions, ["zig", "zon"]);
    assert_eq!(zig.lsp, "zls");
    assert_eq!(zig.formatter, "");
    assert_eq!(zig.linter, "zig fmt --check");
}
