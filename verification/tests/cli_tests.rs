use dictum::cli::{
    flag, language_lines, languages, log_level_label, option_value, output_mode, parse_command, reset_message,
    search_preview, Command,
};

fn args(v: &[&str]) -> Vec<String> {
    v.iter().map(|s| s.to_string()).collect()
}

#[test]
fn commands_by_first_argument() {
    assert!(matches!(parse_command(&args(&["dictum"])), Command::Tray));
    assert!(matches!(parse_command(&args(&["dictum", "-v"])), Command::Version));
    assert!(matches!(parse_command(&args(&["dictum", "--version"])), Command::Version));
    assert!(matches!(parse_command(&args(&["dictum", "--version-full"])), Command::VersionFull));
    assert!(matches!(parse_command(&args(&["dictum", "-h"])), Command::Help));
    assert!(matches!(parse_command(&args(&["dictum", "--list-devices"])), Command::ListDevices));
    assert!(matches!(parse_command(&args(&["dictum", "--list-languages"])), Command::ListLanguages));
    assert!(matches!(parse_command(&args(&["dictum", "--reset-history"])), Command::ResetHistory));
    assert!(matches!(parse_command(&args(&["dictum", "--diagnose"])), Command::Diagnose));
    assert!(matches!(parse_command(&args(&["dictum", "--config-check"])), Command::ConfigCheck));
    assert!(matches!(parse_command(&args(&["dictum", "--list-models"])), Command::ListModels));
    assert!(matches!(parse_command(&args(&["dictum", "--stats"])), Command::Stats));
}

#[test]
fn commands_with_values() {
    match parse_command(&args(&["dictum", "--export", "out.md"])) {
        Command::Export(p) => assert_eq!(p, Some("out.md".to_string())),
        _ => panic!("export"),
    }
    match parse_command(&args(&["dictum", "--export"])) {
        Command::Export(p) => assert_eq!(p, None),
        _ => panic!("export"),
    }
    match parse_command(&args(&["dictum", "--search"])) {
        Command::Search(q) => assert_eq!(q, ""),
        _ => panic!("search"),
    }
    match parse_command(&args(&["dictum", "--search", "mot"])) {
        Command::Search(q) => assert_eq!(q, "mot"),
        _ => panic!("search"),
    }
}

#[test]
fn a_file_with_a_language() {
    match parse_command(&args(&["dictum", "note.wav", "-l", "en"])) {
        Command::File { path, language } => {
            assert_eq!(path, "note.wav");
            assert_eq!(language, Some("en".to_string()));
        }
        _ => panic!("file"),
    }
    match parse_command(&args(&["dictum", "note.wav", "--language"])) {
        Command::File { language, .. } => assert_eq!(language, None),
        _ => panic!("file"),
    }
    match parse_command(&args(&["dictum", "note.wav", "--quiet", "en"])) {
        Command::File { language, .. } => assert_eq!(language, None),
        _ => panic!("file"),
    }
}

#[test]
fn option_values() {
    let a = args(&["dictum", "f.wav", "-o", "out.txt", "--model", "m.bin", "-o", "second"]);
    assert_eq!(option_value(&a, "--output", "-o"), Some("out.txt".to_string()));
    assert_eq!(option_value(&a, "--model", "-m"), Some("m.bin".to_string()));
    assert_eq!(option_value(&a, "--config", "-c"), None);
    assert_eq!(option_value(&args(&["dictum", "-o"]), "--output", "-o"), None);
}

#[test]
fn output_flags() {
    let m = output_mode(&args(&["dictum", "f.wav", "--stdout"]));
    assert!(m.quiet && m.no_save);
    let m = output_mode(&args(&["dictum", "f.wav", "-q"]));
    assert!(m.quiet && !m.no_save);
    let m = output_mode(&args(&["dictum", "f.wav", "--no-save"]));
    assert!(!m.quiet && m.no_save);
    assert!(flag(&args(&["a", "--debug"]), "--debug", "--debug"));
    assert!(!flag(&args(&["a"]), "--debug", "--debug"));
}

#[test]
fn reset_messages() {
    assert_eq!(reset_message(0), "Historique effacé (0 entrée supprimée).");
    assert_eq!(reset_message(1), "Historique effacé (1 entrée supprimée).");
    assert_eq!(reset_message(3), "Historique effacé (3 entrées supprimées).");
}

#[test]
fn search_previews() {
    assert_eq!(search_preview("court"), "court");
    let t = "z".repeat(101);
    assert_eq!(search_preview(&t), format!("{}...", "z".repeat(97)));
    let t = "z".repeat(100);
    assert_eq!(search_preview(&t), t);
}

#[test]
fn level_labels() {
    assert_eq!(log_level_label("warn"), "🟡 warn");
    assert_eq!(log_level_label("debug"), "🔵 debug");
    assert_eq!(log_level_label("verbose"), "verbose");
}

#[test]
fn fifty_seven_languages_by_eight() {
    assert_eq!(languages().len(), 57);
    let lines = language_lines();
    assert_eq!(lines.len(), 8);
    assert_eq!(lines[0], "  af  ar  hy  az  be  bs  bg  ca");
    assert_eq!(lines[7], "  cy");
}
