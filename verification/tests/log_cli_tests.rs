use kazane_game_launcher::cli::{parse_command, wants_gui, CliCommand};
use kazane_game_launcher::game_state::RunState;
use kazane_game_launcher::logs::{format_log_line, push_log, LOG_CAPACITY};
use kazane_game_launcher::process::{
    already_running_message, check_start, no_executable_message, not_running_message,
    strip_verbatim_prefix, StartCheck, STOP_GRACE_SECS,
};
use kazane_game_launcher::search_input::{parse_tag_query, split_on};

fn args(v: &[&str]) -> Vec<String> {
    v.iter().map(|s| s.to_string()).collect()
}

#[test]
fn log_line_format() {
    assert_eq!(format_log_line(1725029869, "INFO", "app started"), "[1725029869] INFO: app started");
    assert_eq!(format_log_line(0, "ERROR", "x"), "[0] ERROR: x");
}

#[test]
fn log_buffer_keeps_the_most_recent_lines() {
    let mut logs = Vec::new();
    for i in 0..(LOG_CAPACITY + 5) {
        push_log(&mut logs, format!("line {}", i));
    }
    assert_eq!(logs.len(), LOG_CAPACITY);
    assert_eq!(logs[0], "line 5");
    assert_eq!(logs[LOG_CAPACITY - 1], format!("line {}", LOG_CAPACITY + 4));
}

#[test]
fn gui_is_default_or_asked_for() {
    assert!(wants_gui(&args(&["launcher"])));
    assert!(wants_gui(&args(&["launcher", "x", "gui"])));
    assert!(!wants_gui(&args(&["launcher", "fetch-games", "o/r"])));
}

#[test]
fn fetch_games_command() {
    match parse_command(&args(&["launcher", "fetch-games", "kazanefu/kazane_game_launcher"])) {
        CliCommand::FetchGames { owner, repo } => {
            assert_eq!(owner, "kazanefu");
            assert_eq!(repo, "kazane_game_launcher");
        }
        _ => panic!("expected fetch-games"),
    }
    assert!(matches!(
        parse_command(&args(&["launcher", "fetch-games", "norepo"])),
        CliCommand::InvalidRepoSpec
    ));
    assert!(matches!(parse_command(&args(&["launcher", "fetch-games"])), CliCommand::Nothing));
    assert!(matches!(parse_command(&args(&["launcher", "other", "o/r"])), CliCommand::Nothing));
}

#[test]
fn tag_field_parsing() {
    assert!(parse_tag_query("   ").is_none());
    assert_eq!(parse_tag_query(" Sample-Tag , ,EXE,").unwrap(), vec!["sample-tag", "exe"]);
    assert_eq!(split_on("a,,b", ','), vec!["a", "", "b"]);
    assert_eq!(split_on("", ','), vec![""]);
}

#[test]
fn verbatim_prefix_is_stripped() {
    assert_eq!(strip_verbatim_prefix(r"\\?\C:\games\run.exe"), r"C:\games\run.exe");
    assert_eq!(strip_verbatim_prefix(r"C:\games\run.exe"), r"C:\games\run.exe");
}

#[test]
fn run_state_defaults_to_not_running() {
    assert_eq!(RunState::default(), RunState::NotRunning);
    assert_ne!(RunState::Running(42), RunState::NotRunning);
}

#[test]
fn start_checks_and_messages() {
    assert_eq!(check_start(true, true), StartCheck::Refuse);
    assert_eq!(check_start(true, false), StartCheck::ClearStale);
    assert_eq!(check_start(false, false), StartCheck::Proceed);
    assert_eq!(already_running_message("g"), "already running: g");
    assert_eq!(not_running_message("g"), "not running: g");
    assert_eq!(no_executable_message("games/g"), "no executable found in games/g");
    assert_eq!(STOP_GRACE_SECS, 2);
}
