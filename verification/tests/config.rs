use caching_proxy::config::{ArgsError, Command, Config, parse_u16};

fn args(list: &[&str]) -> Vec<String> {
    list.iter().map(|s| s.to_string()).collect()
}

#[test]
fn start_with_port_and_origin() {
    let r = Config::parse_args(&args(&["proxy", "--port", "4000", "--origin", "http://localhost:9009"]));
    match r.unwrap().command {
        Command::Start { port, origin } => {
            assert_eq!(port, 4000);
            assert_eq!(origin, "http://localhost:9009");
        }
        Command::ClearCache => panic!("a start command was asked for"),
    }
}

#[test]
fn short_flags_work_like_long_ones() {
    let r = Config::parse_args(&args(&["proxy", "-p", "8080", "-o", "http://example.test"]));
    match r.unwrap().command {
        Command::Start { port, origin } => {
            assert_eq!(port, 8080);
            assert_eq!(origin, "http://example.test");
        }
        Command::ClearCache => panic!("a start command was asked for"),
    }
}

#[test]
fn port_defaults_to_3000() {
    let r = Config::parse_args(&args(&["proxy", "--origin", "http://example.test"]));
    match r.unwrap().command {
        Command::Start { port, .. } => assert_eq!(port, 3000),
        Command::ClearCache => panic!("a start command was asked for"),
    }
}

#[test]
fn later_flags_override_earlier_ones() {
    let r = Config::parse_args(&args(&[
        "proxy", "--port", "1000", "--origin", "http://a.test", "--port", "2000", "--origin",
        "http://b.test",
    ]));
    match r.unwrap().command {
        Command::Start { port, origin } => {
            assert_eq!(port, 2000);
            assert_eq!(origin, "http://b.test");
        }
        Command::ClearCache => panic!("a start command was asked for"),
    }
}

#[test]
fn clear_cache_wins_over_start() {
    let r = Config::parse_args(&args(&["proxy", "--origin", "http://a.test", "--clear-cache"]));
    assert!(matches!(r.unwrap().command, Command::ClearCache));
}

#[test]
fn clear_cache_needs_no_origin() {
    let r = Config::parse_args(&args(&["proxy", "--clear-cache"]));
    assert!(matches!(r.unwrap().command, Command::ClearCache));
}

#[test]
fn start_without_origin_is_refused() {
    let r = Config::parse_args(&args(&["proxy"]));
    assert_eq!(r.unwrap_err(), ArgsError::MissingOrigin);
    let r = Config::parse_args(&args(&["proxy", "--port", "4000"]));
    assert_eq!(r.unwrap_err(), ArgsError::MissingOrigin);
}

#[test]
fn dangling_value_flags_are_refused() {
    let r = Config::parse_args(&args(&["proxy", "--port"]));
    assert_eq!(r.unwrap_err(), ArgsError::MissingPortValue);
    let r = Config::parse_args(&args(&["proxy", "--origin"]));
    assert_eq!(r.unwrap_err(), ArgsError::MissingOriginValue);
}

#[test]
fn bad_port_values_are_refused() {
    for bad in ["abc", "40a0", "70000", "-1", ""] {
        let r = Config::parse_args(&args(&["proxy", "--port", bad, "--origin", "http://a.test"]));
        assert_eq!(r.unwrap_err(), ArgsError::InvalidPort, "port {bad:?} must be refused");
    }
}

#[test]
fn help_is_reported_as_a_value() {
    let r = Config::parse_args(&args(&["proxy", "--help"]));
    assert_eq!(r.unwrap_err(), ArgsError::HelpRequested);
    let r = Config::parse_args(&args(&["proxy", "-h"]));
    assert_eq!(r.unwrap_err(), ArgsError::HelpRequested);
}

#[test]
fn unknown_arguments_are_reported_verbatim() {
    let r = Config::parse_args(&args(&["proxy", "--bogus"]));
    assert_eq!(r.unwrap_err(), ArgsError::UnknownArgument("--bogus".to_string()));
}

#[test]
fn parse_u16_exact_values() {
    assert_eq!(parse_u16("0"), Some(0));
    assert_eq!(parse_u16("3000"), Some(3000));
    assert_eq!(parse_u16("007"), Some(7));
    assert_eq!(parse_u16("65535"), Some(65535));
    assert_eq!(parse_u16("65536"), None);
    assert_eq!(parse_u16("99999999999999999999"), None);
    assert_eq!(parse_u16(""), None);
    assert_eq!(parse_u16("12a"), None);
    assert_eq!(parse_u16(" 12"), None);
    assert_eq!(parse_u16("+12"), None);
}
