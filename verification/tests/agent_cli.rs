use bondage::cli::{agent_system_prompt, parse_agent_args};

fn args(v: &[&str]) -> Vec<String> {
    v.iter().map(|s| s.to_string()).collect()
}

const USAGE: &str = "Usage: rope [-c <config_path>] [-y|--yolo] <prompt...>";

#[test]
fn agent_args_read_flags_and_prompt() {
    let a = parse_agent_args(&args(&["-y", "list", "files"])).unwrap();
    assert!(a.yolo);
    assert_eq!(a.config, None);
    assert_eq!(a.positional, args(&["list", "files"]));

    let b = parse_agent_args(&args(&["hi", "--config", "work", "--yolo"])).unwrap();
    assert!(b.yolo);
    assert_eq!(b.config, Some("work".to_string()));
    assert_eq!(b.positional, args(&["hi"]));
}

#[test]
fn agent_config_flag_takes_the_next_argument_whatever_it_is() {
    let a = parse_agent_args(&args(&["-c", "-y", "p"])).unwrap();
    assert_eq!(a.config, Some("-y".to_string()));
    assert!(!a.yolo);
    // A last `-c` with nothing after it names no configuration.
    let b = parse_agent_args(&args(&["-c", "a", "p", "-c"])).unwrap();
    assert_eq!(b.config, None);
    assert_eq!(b.positional, args(&["p"]));
}

#[test]
fn agent_without_prompt_shows_usage() {
    assert_eq!(parse_agent_args(&args(&[])).unwrap_err(), USAGE);
    assert_eq!(parse_agent_args(&args(&["-y", "-c", "x"])).unwrap_err(), USAGE);
}

#[test]
fn agent_system_prompt_names_the_lookup_tool() {
    let p = agent_system_prompt();
    assert!(p.starts_with("You are Bondage, a stateless actor core."));
    assert!(p.contains("'lookup' tool"));
    assert!(p.ends_with("Keep your answers concise."));
}
