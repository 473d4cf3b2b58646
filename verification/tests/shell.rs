use sras_cli::completion::{complete, Completion};
use sras_cli::event::Event;
use sras_cli::shell::{shell_action, shell_argv, Bound, CalibrateSensor, HygroSoil, ShellAction, Subcommand};

fn names() -> Vec<String> {
    ["logs", "load", "dispense", "calibrate", "server"].iter().map(|s| s.to_string()).collect()
}

fn candidates(c: Completion) -> Vec<String> {
    match c {
        Completion::Candidates(v) => v,
        Completion::ListDirectory(_) => panic!("expected candidates"),
    }
}

fn directory(c: Completion) -> Option<String> {
    match c {
        Completion::ListDirectory(d) => d,
        Completion::Candidates(_) => panic!("expected a directory"),
    }
}

#[test]
fn dispense_defaults() {
    assert!(matches!(shell_action(Subcommand::Dispense(None, None)), ShellAction::Send(Event::Dispense(0, u32::MAX))));
    assert!(matches!(shell_action(Subcommand::Dispense(Some(30), Some(60))), ShellAction::Send(Event::Dispense(30, 60))));
    assert!(matches!(shell_action(Subcommand::Dispense(Some(30), None)), ShellAction::Send(Event::Dispense(30, u32::MAX))));
}

#[test]
fn other_shell_commands() {
    assert!(matches!(shell_action(Subcommand::Logs), ShellAction::ShowLogs));
    assert!(matches!(shell_action(Subcommand::Server(0)), ShellAction::Send(Event::StartServer(0))));
    match shell_action(Subcommand::Load(String::from("plants/ficus.toml"))) {
        ShellAction::LoadPlantFile(f) => assert_eq!(f, "plants/ficus.toml"),
        _ => panic!("expected a load"),
    }
    let sensor = CalibrateSensor::HygroSoil(HygroSoil { bound: Bound::Low });
    assert_eq!(sensor, CalibrateSensor::HygroSoil(HygroSoil { bound: Bound::Low }));
}

#[test]
fn argv_splits_words_like_a_shell() {
    assert_eq!(shell_argv("dispense 10  20").unwrap(), vec![":", "dispense", "10", "20"]);
    assert_eq!(shell_argv("load 'my plant.toml'").unwrap(), vec![":", "load", "my plant.toml"]);
    assert_eq!(shell_argv("").unwrap(), vec![":"]);
    assert_eq!(shell_argv("load \"unterminated"), None);
}

#[test]
fn completes_command_names() {
    assert_eq!(candidates(complete("lo", 2, &names())), vec!["logs", "load"]);
    assert_eq!(candidates(complete("di", 2, &names())), vec!["dispense "]);
    assert_eq!(candidates(complete("", 0, &names())).len(), 5);
    assert_eq!(candidates(complete("x", 1, &names())), Vec::<String>::new());
    // only the text left of the cursor counts
    assert_eq!(candidates(complete("serverxyz", 2, &names())), vec!["server "]);
    assert_eq!(candidates(complete("dispense 1", 10, &names())), Vec::<String>::new());
}

#[test]
fn quotes_candidates_for_the_shell() {
    let odd = vec![String::from("a b"), String::from("c")];
    assert_eq!(candidates(complete("a", 1, &odd)), vec!["'a b' "]);
    let two = vec![String::from("it's"), String::from("i")];
    assert_eq!(candidates(complete("i", 1, &two)), vec!["'it'\\''s'", "i"]);
}

#[test]
fn completes_paths_after_load() {
    assert_eq!(directory(complete("load ", 5, &names())), Some(String::from(".")));
    assert_eq!(directory(complete("load .", 6, &names())), Some(String::from(".")));
    assert_eq!(directory(complete("load ..", 7, &names())), Some(String::from("..")));
    assert_eq!(directory(complete("load /", 6, &names())), Some(String::from("/")));
    assert_eq!(directory(complete("load plants/fic", 15, &names())), Some(String::from("plants")));
    assert_eq!(directory(complete("load ficus", 10, &names())), Some(String::from("")));
    assert_eq!(directory(complete("load /etc/x", 11, &names())), Some(String::from("/etc")));
}

#[test]
fn path_without_parent_has_no_directory() {
    assert_eq!(directory(complete("load //", 7, &names())), None);
}

#[test]
fn calibration_is_answered_without_panicking() {
    let sensor = CalibrateSensor::HygroSoil(HygroSoil { bound: Bound::High });
    match shell_action(Subcommand::Calibrate(sensor)) {
        ShellAction::CalibrationUnavailable(s) => assert_eq!(s, sensor),
        _ => panic!("expected the calibration to be reported unavailable"),
    }
}
