use metrsd::cli::Cli;
use metrsd::error::MetrsError;

fn args(items: &[&str]) -> Vec<String> {
    items.iter().map(|s| s.to_string()).collect()
}

#[test]
fn test_cli() {
    let args1 = Cli::parse_from(&args(&[
        "metrsd",
        "-H",
        "unix:///run/toto.sock",
        "-H",
        "tcp://0.0.0.0:1245",
    ]))
    .unwrap();

    assert_eq!(args1.hosts.len(), 2);
    assert_eq!(args1.hosts[0], "unix:///run/toto.sock");
    assert_eq!(args1.hosts[1], "tcp://0.0.0.0:1245");

    let args2 = Cli::parse_from(&args(&[
        "metrsd",
        "--hosts",
        "unix:///run/toto.sock",
        "--hosts",
        "tcp://0.0.0.0:1245",
    ]))
    .unwrap();

    assert_eq!(args2.hosts.len(), 2);
    assert_eq!(args2.hosts[0], "unix:///run/toto.sock");
    assert_eq!(args2.hosts[1], "tcp://0.0.0.0:1245");
}

#[test]
fn cli_default_tick_interval() {
    let cli = Cli::parse_from(&args(&["metrsd", "-H", "tcp://127.0.0.1:0"])).unwrap();
    assert_eq!(cli.tick_interval, 10);
}

#[test]
fn cli_custom_tick_interval() {
    let cli = Cli::parse_from(&args(&["metrsd", "-H", "tcp://127.0.0.1:0", "-t", "3"])).unwrap();
    assert_eq!(cli.tick_interval, 3);
    let cli = Cli::parse_from(&args(&[
        "metrsd",
        "--hosts",
        "tcp://127.0.0.1:0",
        "--tick-interval",
        "25",
    ]))
    .unwrap();
    assert_eq!(cli.tick_interval, 25);
}

#[test]
fn cli_space_separated_hosts() {
    let cli = Cli::parse_from(&args(&["metrsd", "-H", "unix:///tmp/a.sock tcp://127.0.0.1:0"]))
        .unwrap();
    assert_eq!(cli.hosts, vec!["unix:///tmp/a.sock", "tcp://127.0.0.1:0"]);
}

#[test]
fn cli_hosts_required() {
    assert!(Cli::parse_from(&args(&["metrsd"])).is_err());
}

#[test]
fn cli_bad_tick_interval() {
    let err = Cli::parse_from(&args(&["metrsd", "-H", "tcp://127.0.0.1:0", "-t", "ten"]))
        .unwrap_err();
    assert!(matches!(err, MetrsError::Error(_)));
    let err = Cli::parse_from(&args(&["metrsd", "-H", "tcp://127.0.0.1:0", "-t", "-1"]))
        .unwrap_err();
    assert!(matches!(err, MetrsError::Error(_)));
}

#[test]
fn cli_tick_interval_range() {
    let cli = Cli::parse_from(&args(&["metrsd", "-H", "x", "-t", "18446744073709551615"])).unwrap();
    assert_eq!(cli.tick_interval, u64::MAX);
    assert!(Cli::parse_from(&args(&["metrsd", "-H", "x", "-t", "18446744073709551616"])).is_err());
    let cli = Cli::parse_from(&args(&["metrsd", "-H", "x", "-t", "+5"])).unwrap();
    assert_eq!(cli.tick_interval, 5);
}

#[test]
fn cli_help_is_usage() {
    let err = Cli::parse_from(&args(&["metrsd", "--help"])).unwrap_err();
    assert!(matches!(err, MetrsError::Usage(_)));
    assert!(err.message().contains("--hosts"));
}

#[test]
fn cli_from_values_without_hosts() {
    let err = Cli::from_values(Vec::new(), None).unwrap_err();
    assert_eq!(err.message(), "No host to listen on");
}

#[test]
fn cli_from_values_default() {
    let cli = Cli::from_values(vec!["tcp://a:1".to_string()], None).unwrap();
    assert_eq!(cli.tick_interval, 10);
    let cli = Cli::from_values(vec!["tcp://a:1".to_string()], Some(7)).unwrap();
    assert_eq!(cli.tick_interval, 7);
}
