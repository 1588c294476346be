use git_credential_github::prompt::{prompt_border, prompt_lines, prompt_text, PROMPT_WIDTH};
use git_credential_github::verbosity::{LogLevel, Verbosity};

#[test]
fn log_levels() {
    assert_eq!(Verbosity { quiet: true, verbose: 3 }.log_level(), LogLevel::Off);
    assert_eq!(Verbosity { quiet: false, verbose: 0 }.log_level(), LogLevel::Info);
    assert_eq!(Verbosity { quiet: false, verbose: 1 }.log_level(), LogLevel::Debug);
    assert_eq!(Verbosity { quiet: false, verbose: 2 }.log_level(), LogLevel::Trace);
    assert_eq!(LogLevel::Off.name(), "QUIET");
    assert_eq!(LogLevel::Debug.name(), "DEBUG");
    assert!(Verbosity { quiet: true, verbose: 0 }.is_quied());
}

#[test]
fn banner_matches_format_centering() {
    assert_eq!(prompt_border(), format!("*{:*^1$}*", "", PROMPT_WIDTH));
    for t in ["gh v1.0", "A simple git credentials helper for GitHub", "", "ab"] {
        assert_eq!(prompt_text(t), format!("*{: ^1$}*", t, PROMPT_WIDTH));
    }
    let long = "x".repeat(60);
    assert_eq!(prompt_text(&long), format!("*{}*", long));
    let lines = prompt_lines("gh v1.0");
    assert_eq!(lines.len(), 4);
    assert_eq!(lines[0].chars().count(), PROMPT_WIDTH + 2);
}

#[test]
fn verbosity_names_its_level() {
    assert_eq!(Verbosity { quiet: false, verbose: 0 }.name(), "INFO");
    assert_eq!(Verbosity { quiet: true, verbose: 0 }.name(), "QUIET");
    assert_eq!(Verbosity { quiet: false, verbose: 5 }.name(), "TRACE");
}
