use garble::{cli_host_port, parse_command_line_args, DEFAULT_PORT};

fn args(list: &[&str]) -> Vec<String> {
    list.iter().map(|s| s.to_string()).collect()
}

fn parse(list: &[&str]) -> Result<(String, usize), Option<String>> {
    parse_command_line_args(&args(list), "localhost", DEFAULT_PORT).map_err(|e| e.program)
}

#[test]
fn default_port_value() {
    assert_eq!(DEFAULT_PORT, 4440);
}

#[test]
fn no_arguments_give_defaults() {
    assert_eq!(parse(&["garble"]), Ok(("localhost".to_string(), 4440)));
    assert_eq!(parse(&[]), Ok(("localhost".to_string(), 4440)));
}

#[test]
fn address_and_port() {
    assert_eq!(parse(&["garble", "example.com:1234"]), Ok(("example.com".to_string(), 1234)));
}

#[test]
fn address_only() {
    assert_eq!(parse(&["garble", "example.com"]), Ok(("example.com".to_string(), 4440)));
}

#[test]
fn port_only() {
    assert_eq!(parse(&["garble", ":99"]), Ok(("localhost".to_string(), 99)));
}

#[test]
fn empty_port_after_colon() {
    assert_eq!(parse(&["garble", "host:"]), Ok(("host".to_string(), 4440)));
    assert_eq!(parse(&["garble", ":"]), Ok(("localhost".to_string(), 4440)));
}

#[test]
fn plus_sign_is_accepted() {
    assert_eq!(parse(&["garble", "h:+7"]), Ok(("h".to_string(), 7)));
}

#[test]
fn splits_at_first_colon() {
    assert_eq!(parse(&["garble", "a:b:c"]), Err(Some("garble".to_string())));
}

#[test]
fn bad_ports_are_usage_errors() {
    assert_eq!(parse(&["garble", "h:-7"]), Err(Some("garble".to_string())));
    assert_eq!(parse(&["garble", "h:+"]), Err(Some("garble".to_string())));
    assert_eq!(parse(&["garble", "h: 7"]), Err(Some("garble".to_string())));
    assert_eq!(
        parse(&["garble", "h:999999999999999999999999999"]),
        Err(Some("garble".to_string()))
    );
}

#[test]
fn too_many_arguments() {
    assert_eq!(parse(&["prog", "x", "y"]), Err(Some("prog".to_string())));
}

#[test]
fn other_defaults() {
    let r = parse_command_line_args(&args(&["srv"]), "0.0.0.0", 8080).unwrap();
    assert_eq!(r, ("0.0.0.0".to_string(), 8080));
}

#[test]
fn cli_host_and_port() {
    assert_eq!(cli_host_port(&args(&["cli", "example.org", "8000"])), Some(("example.org".to_string(), 8000)));
    assert_eq!(cli_host_port(&args(&["cli", "example.org"])), Some(("example.org".to_string(), 3000)));
    assert_eq!(cli_host_port(&args(&["cli", "h", "65535"])), Some(("h".to_string(), 65535)));
    assert_eq!(cli_host_port(&args(&["cli", "h", "65536"])), Some(("h".to_string(), 3000)));
    assert_eq!(cli_host_port(&args(&["cli", "h", "port"])), Some(("h".to_string(), 3000)));
    assert_eq!(cli_host_port(&args(&["cli"])), None);
    assert_eq!(cli_host_port(&args(&["cli", "a", "b", "c"])), None);
}
