use serial_cli::args::{parse_baud_rate, parse_timeout_policy, plan, same_text, ArgError, Command, PortChoice};
use serial_cli::reading::TimeoutPolicy;
use serial_cli::session::{resolve_port, validate_args, SessionConfig, RESPONSE_TIMEOUT_MS};

fn args(list: &[&str]) -> Vec<String> {
    list.iter().map(|s| s.to_string()).collect()
}

#[test]
fn plan_write_hello() {
    let inv = plan(&args(&["prog", "write", "com-port-X", "9600", "HELLO"])).ok().unwrap();
    assert!(matches!(inv.command, Command::Write(ref d) if d == "HELLO"));
    assert!(matches!(inv.port, PortChoice::Named(ref p) if p == "com-port-X"));
    assert_eq!(inv.baud_rate, 9600);
}

#[test]
fn plan_read_auto() {
    let inv = plan(&args(&["prog", "read", "auto", "115200"])).ok().unwrap();
    assert!(matches!(inv.command, Command::Read));
    assert!(matches!(inv.port, PortChoice::Auto));
    assert_eq!(inv.baud_rate, 115200);
}

#[test]
fn plan_invalid_command() {
    let r = plan(&args(&["prog", "foo", "com-port-X", "9600"]));
    assert_eq!(r.err(), Some(ArgError::InvalidCommand));
}

#[test]
fn plan_invalid_baud_rate() {
    let r = plan(&args(&["prog", "read", "com-port-X", "abc"]));
    assert_eq!(r.err(), Some(ArgError::InvalidBaudRate));
}

#[test]
fn plan_usage_and_missing_data() {
    assert_eq!(plan(&args(&["prog", "read", "x"])).err(), Some(ArgError::Usage));
    assert_eq!(plan(&args(&[])).err(), Some(ArgError::Usage));
    let r = plan(&args(&["prog", "write", "com-port-X", "9600"]));
    assert_eq!(r.err(), Some(ArgError::MissingData));
}

#[test]
fn parse_baud_rates() {
    assert_eq!(parse_baud_rate("9600"), Some(9600));
    assert_eq!(parse_baud_rate("+12"), Some(12));
    assert_eq!(parse_baud_rate("0"), Some(0));
    assert_eq!(parse_baud_rate("4294967295"), Some(u32::MAX));
    assert_eq!(parse_baud_rate("4294967296"), None);
    assert_eq!(parse_baud_rate("99999999999999999999"), None);
    assert_eq!(parse_baud_rate(""), None);
    assert_eq!(parse_baud_rate("+"), None);
    assert_eq!(parse_baud_rate("-1"), None);
    assert_eq!(parse_baud_rate("12a"), None);
    assert_eq!(parse_baud_rate(" 1"), None);
}

#[test]
fn same_text_compares_characters() {
    assert!(same_text("read", "read"));
    assert!(!same_text("read", "reads"));
    assert!(!same_text("read", "reaD"));
}

#[test]
fn validate_checks_port_then_baud() {
    let ports = args(&["/dev/ttyUSB0", "com-port-X"]);
    assert_eq!(validate_args("com-port-X", 9600, &ports), Ok(()));
    assert_eq!(validate_args("com-port-X", 0, &ports), Err(ArgError::InvalidBaudRate));
    assert_eq!(validate_args("missing", 9600, &ports), Err(ArgError::PortNotFound));
    assert_eq!(validate_args("missing", 0, &ports), Err(ArgError::InvalidBaudRate));
    assert_eq!(validate_args("com-port-X", 0, &Vec::new()), Err(ArgError::InvalidBaudRate));
    assert_eq!(validate_args("com-port-X", 1, &Vec::new()), Err(ArgError::PortNotFound));
}

#[test]
fn resolve_auto_and_named() {
    let ports = args(&["/dev/ttyUSB0", "/dev/ttyUSB1"]);
    assert_eq!(resolve_port(&PortChoice::Auto, &ports), Ok("/dev/ttyUSB0".to_string()));
    assert_eq!(resolve_port(&PortChoice::Auto, &Vec::new()), Err(ArgError::NoPorts));
    let named = PortChoice::Named("com-port-X".to_string());
    assert_eq!(resolve_port(&named, &Vec::new()), Ok("com-port-X".to_string()));
}

#[test]
fn session_config_refuses_zero_baud() {
    assert!(matches!(SessionConfig::new("p".to_string(), 0), Err(ArgError::InvalidBaudRate)));
    let c = SessionConfig::new("p".to_string(), 9600).ok().unwrap();
    assert_eq!(c.port(), "p");
    assert_eq!(c.baud_rate(), 9600);
    assert_eq!(c.timeout_ms(), RESPONSE_TIMEOUT_MS);
    assert_eq!(RESPONSE_TIMEOUT_MS, 100);
}

#[test]
fn plan_zero_baud_rate() {
    let r = plan(&args(&["prog", "read", "com-port-X", "0"]));
    assert_eq!(r.err(), Some(ArgError::InvalidBaudRate));
    let r = plan(&args(&["prog", "write", "auto", "+0", "HELLO"]));
    assert_eq!(r.err(), Some(ArgError::InvalidBaudRate));
    let r = plan(&args(&["prog", "foo", "auto", "0"]));
    assert_eq!(r.err(), Some(ArgError::InvalidBaudRate));
}

#[test]
fn plan_unparsable_baud_with_auto() {
    let r = plan(&args(&["prog", "write", "auto", "abc", "HELLO"]));
    assert_eq!(r.err(), Some(ArgError::InvalidBaudRate));
}

#[test]
fn timeout_policy_words() {
    assert!(matches!(parse_timeout_policy("continue"), Some(TimeoutPolicy::ContinuePolling)));
    assert!(matches!(parse_timeout_policy("fatal"), Some(TimeoutPolicy::TreatAsFatal)));
    assert!(parse_timeout_policy("Fatal").is_none());
    assert!(parse_timeout_policy("").is_none());
}
