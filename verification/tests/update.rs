use std::path::PathBuf;

use cpos::update::{
    cargo_failure, crate_key_path_text, crates2_install_paths, escapes_whole_text, last_with_manifest, detect_method, dev_build, git_install,
    is_tool_manifest, key_is_decodable, looks_like_build_output, parse_path_from_crate_key,
    path_install, percent_decode_text, update_plan, InstallRecords, UpdateMethod, UpdateStep,
};

#[test]
fn parses_path_install_key() {
    let key = "cpos 0.1.0 (path+file:///Users/dev/cpos#0.1.0)";
    let path = parse_path_from_crate_key(key);
    assert_eq!(path, Some(PathBuf::from("/Users/dev/cpos")));
}

#[test]
fn ignores_git_install_key() {
    let key = "cpos 0.1.0 (git+https://github.com/Soham109/cpos#abc123)";
    assert!(parse_path_from_crate_key(key).is_none());
}

#[test]
fn key_of_another_package_is_ignored() {
    assert!(parse_path_from_crate_key("other 0.1.0 (path+file:///x#0.1.0)").is_none());
    assert!(parse_path_from_crate_key("cpos").is_none());
}

#[test]
fn key_without_version_suffix_runs_to_the_end() {
    assert_eq!(crate_key_path_text("cpos 1.0.0 (path+file:///a/b"), Some("/a/b".to_string()));
}

#[test]
fn percent_escapes_are_decoded() {
    assert_eq!(
        crate_key_path_text("cpos 0.1.0 (path+file:///Users/dev/my%20cpos#0.1.0)"),
        Some("/Users/dev/my cpos".to_string())
    );
    assert_eq!(percent_decode_text("a%2Fb"), "a/b");
    assert_eq!(percent_decode_text("100%"), "100%");
    assert_eq!(percent_decode_text("%zz"), "%zz");
    assert_eq!(percent_decode_text("%+4x"), "\u{4}x");
    assert_eq!(percent_decode_text("%41%"), "A%");
    assert_eq!(percent_decode_text("%e9"), "\u{e9}");
    assert_eq!(percent_decode_text("%-1z"), "%-1z");
    assert_eq!(percent_decode_text("%ab%AB"), "\u{ab}\u{ab}");
}

#[test]
fn non_ascii_bytes_become_single_characters() {
    // Each byte of `é` (0xC3 0xA9) is taken as its own character.
    assert_eq!(percent_decode_text("é"), "\u{c3}\u{a9}");
}

#[test]
fn split_escapes_are_detected() {
    assert!(key_is_decodable("cpos 0.1.0 (path+file:///a%20b#0.1.0)"));
    assert!(!key_is_decodable("cpos 0.1.0 (path+file:///a%2é#0.1.0)"));
    assert!(key_is_decodable("cpos 0.1.0 (git+https://x/%2é#0.1.0)"));
}

#[test]
fn install_records_are_read_from_crates2_json() {
    let text = r#"{"installs":{},"packages":{
        "ripgrep 14.0.0 (registry+https://github.com/rust-lang/crates.io-index)": {},
        "cpos 0.1.0 (path+file:///home/u/src/cpos#0.1.0)": {},
        "cpos 0.2.0 (path+file:///home/u/other%20cpos#0.2.0)": {}
    }}"#;
    assert_eq!(
        crates2_install_paths(text),
        InstallRecords::Paths(vec!["/home/u/src/cpos".to_string(), "/home/u/other cpos".to_string()])
    );
    assert_eq!(crates2_install_paths("not json"), InstallRecords::Unreadable);
    assert_eq!(crates2_install_paths(r#"{"installs":{}}"#), InstallRecords::Unreadable);
    assert_eq!(crates2_install_paths(r#"{"packages":[]}"#), InstallRecords::Unreadable);
    assert_eq!(crates2_install_paths(r#"{"packages":{}}"#), InstallRecords::Paths(vec![]));
    assert_eq!(
        crates2_install_paths(r#"{"packages":{"cpos 0.1.0 (path+file:///a%2é#0.1.0)":{}}}"#),
        InstallRecords::SplitEscape
    );
}

#[test]
fn method_prefers_path_install_then_dev_tree() {
    match detect_method(Some("/a".to_string()), Some("/b".to_string())) {
        UpdateMethod::LocalPath(p) => assert_eq!(p, "/a"),
        other => panic!("unexpected {other:?}"),
    }
    match detect_method(None, Some("/b".to_string())) {
        UpdateMethod::DevTree(p) => assert_eq!(p, "/b"),
        other => panic!("unexpected {other:?}"),
    }
    assert!(matches!(detect_method(None, None), UpdateMethod::Git));
}

#[test]
fn build_output_and_manifest_detection() {
    assert!(looks_like_build_output("/home/u/cpos/target/release/cpos"));
    assert!(looks_like_build_output("C:\\cpos\\target\\debug\\cpos.exe"));
    assert!(!looks_like_build_output("/home/u/.cargo/bin/cpos"));
    assert!(is_tool_manifest("[package]\nname = \"cpos\"\n"));
    assert!(!is_tool_manifest("[package]\nname = \"other\"\n"));
}

#[test]
fn update_plans() {
    let g = git_install();
    assert_eq!(g.len(), 1);
    match &g[0] {
        UpdateStep::Cargo { args, context } => {
            assert_eq!(args, &vec!["install", "--git", "https://github.com/Soham109/cpos", "--force"]);
            assert_eq!(context, "failed to update from GitHub — check your network and try again");
        }
        other => panic!("unexpected {other:?}"),
    }
    let p = path_install("/src/cpos");
    assert!(matches!(&p[0], UpdateStep::Say(s) if s == "Detected local install at /src/cpos"));
    assert!(matches!(&p[1], UpdateStep::GitPull(d) if d == "/src/cpos"));
    assert!(matches!(&p[2], UpdateStep::Cargo { args, .. } if args == &vec!["install", "--path", "/src/cpos", "--force"]));
    let d = dev_build("/src/cpos");
    assert_eq!(d.len(), 4);
    assert!(matches!(&d[3], UpdateStep::Say(s) if s == "Built /src/cpos/target/release/cpos"));
    assert_eq!(update_plan(&UpdateMethod::Git).len(), 1);
    assert_eq!(update_plan(&UpdateMethod::DevTree("/x".to_string())).len(), 4);
}

#[test]
fn cargo_failure_messages() {
    assert_eq!(cargo_failure(&vec!["install".to_string()]), "cargo install failed");
    assert_eq!(cargo_failure(&vec![]), "cargo command failed");
}

#[test]
fn the_last_install_with_a_manifest_wins() {
    assert_eq!(last_with_manifest(&vec![true, false, true, false]), Some(2));
    assert_eq!(last_with_manifest(&vec![true]), Some(0));
    assert_eq!(last_with_manifest(&vec![false, false]), None);
    assert_eq!(last_with_manifest(&vec![]), None);
}

#[test]
fn whole_escapes_are_recognised() {
    assert!(escapes_whole_text("/a%20b"));
    assert!(escapes_whole_text("%é"));
    assert!(!escapes_whole_text("%2é"));
    assert!(!escapes_whole_text("%2éx"));
    assert!(escapes_whole_text("é%41"));
    assert!(escapes_whole_text(""));
}
