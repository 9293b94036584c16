use qubes_meminfo_writer_ng::cli::{
    parse_args, program_name, usage_text, CliArgs, CliStop, OutputMode, DEFAULT_CONFIG_PATH,
};

fn parse(options: &[&str]) -> Result<CliArgs, CliStop> {
    let mut args = vec!["prog".to_string()];
    args.extend(options.iter().map(|s| s.to_string()));
    parse_args(&args)
}

fn settings(config_path: &str, output_mode: OutputMode, once: bool) -> Result<CliArgs, CliStop> {
    Ok(CliArgs { config_path: config_path.to_string(), output_mode, once })
}

#[test]
fn test_no_options_give_defaults() {
    assert_eq!(parse(&[]), settings(DEFAULT_CONFIG_PATH, OutputMode::Xenstore, false));
    assert_eq!(parse_args(&[]), settings(DEFAULT_CONFIG_PATH, OutputMode::Xenstore, false));
    assert_eq!(DEFAULT_CONFIG_PATH, "/etc/qubes/meminfo-writer-ng.conf");
}

#[test]
fn test_all_options() {
    assert_eq!(
        parse(&["--output", "print", "--once", "--config", "/tmp/c"]),
        settings("/tmp/c", OutputMode::Print, true)
    );
}

#[test]
fn test_output_modes() {
    for (name, mode, prints, writes) in [
        ("print", OutputMode::Print, true, false),
        ("xenstore", OutputMode::Xenstore, false, true),
        ("both", OutputMode::Both, true, true),
    ] {
        assert_eq!(parse(&["--output", name]), settings(DEFAULT_CONFIG_PATH, mode, false));
        assert_eq!(mode.use_print(), prints);
        assert_eq!(mode.use_xenstore(), writes);
    }
}

#[test]
fn test_last_setting_wins() {
    assert_eq!(
        parse(&["--config", "/a", "--output", "print", "--config", "/b", "--output", "both"]),
        settings("/b", OutputMode::Both, false)
    );
}

#[test]
fn test_option_value_may_look_like_an_option() {
    assert_eq!(
        parse(&["--config", "--once"]),
        settings("--once", OutputMode::Xenstore, false)
    );
}

#[test]
fn test_stops() {
    assert_eq!(parse(&["--help"]), Err(CliStop::Help));
    assert_eq!(parse(&["-h"]), Err(CliStop::Help));
    assert_eq!(parse(&["--once", "--config"]), Err(CliStop::MissingConfigPath));
    assert_eq!(parse(&["--output"]), Err(CliStop::MissingOutputMode));
    assert_eq!(
        parse(&["--output", "Print"]),
        Err(CliStop::UnknownOutputMode("Print".to_string()))
    );
    assert_eq!(parse(&["--debug"]), Err(CliStop::UnknownOption("--debug".to_string())));
    assert_eq!(parse(&[""]), Err(CliStop::UnknownOption("".to_string())));
}

#[test]
fn test_first_stop_decides() {
    assert_eq!(parse(&["--help", "--bogus"]), Err(CliStop::Help));
    assert_eq!(
        parse(&["--once", "--bogus", "--help"]),
        Err(CliStop::UnknownOption("--bogus".to_string()))
    );
}

#[test]
fn test_options_are_read_in_order() {
    assert_eq!(
        parse(&["--once", "--output", "both"]),
        settings(DEFAULT_CONFIG_PATH, OutputMode::Both, true)
    );
}

#[test]
fn test_program_name() {
    assert_eq!(program_name(&["/usr/sbin/x".to_string(), "--once".to_string()]), "/usr/sbin/x");
    assert_eq!(program_name(&[]), "qubes-meminfo-writer-ng");
}

#[test]
fn test_usage_text() {
    let expected = "Usage: prog [OPTIONS]

Options:
  --config <path>        Configuration file [default: /etc/qubes/meminfo-writer-ng.conf]
  --output <mode>        Output mode (default: xenstore):
    print                Print computed values to stdout; no xenstore writes
    xenstore             Write to xenstore only (silent)
    both                 Write to xenstore and print to stdout
  --once                 Run one iteration and exit (useful for debugging)
  --help, -h             Show this message

Configuration file (TOML) keys:
  threshold_kb   Memory change threshold in kB [default: 30000]
  delay_us       Update interval in microseconds [default: 100000]

  [[swap]]       Swap weight rule (first matching rule applies):
    glob         Shell glob pattern for the swap device/file path
    weight       Multiplier for used-kB (0.0 = ignore, 1.0 = full weight)
";
    assert_eq!(usage_text("prog"), expected);
}

#[test]
fn test_stop_messages_and_exit_codes() {
    let usage = usage_text("p");
    for (stop, error, code) in [
        (CliStop::Help, "", 0),
        (CliStop::MissingConfigPath, "error: --config requires a path argument\n", 1),
        (CliStop::MissingOutputMode, "error: --output requires a mode argument\n", 1),
        (
            CliStop::UnknownOutputMode("x".to_string()),
            "error: unknown --output mode 'x'; expected print|xenstore|both\n",
            1,
        ),
        (CliStop::UnknownOption("-x".to_string()), "error: unknown option: -x\n", 1),
    ] {
        assert_eq!(stop.message("p"), format!("{error}{usage}"));
        assert_eq!(stop.exit_code(), code);
    }
}
