use tokio_channels_console::cli::{ConsoleArgs, TCArgs, TCSubcommand};

#[test]
fn console_runs_with_the_port_of_its_subcommand() {
    let args = TCArgs {
        cmd: Some(TCSubcommand::Console(ConsoleArgs { metrics_port: 7000 })),
        metrics_port: 6770,
    };
    assert_eq!(args.console_args(), ConsoleArgs { metrics_port: 7000 });
}

#[test]
fn console_runs_with_the_port_of_the_program_without_a_subcommand() {
    let args = TCArgs { cmd: None, metrics_port: 7001 };
    assert_eq!(args.console_args(), ConsoleArgs { metrics_port: 7001 });
}

#[test]
fn default_arguments_use_the_default_port() {
    let args = TCArgs::default();
    assert_eq!(args.cmd, None);
    assert_eq!(args.metrics_port, 6770);
    assert_eq!(args.console_args().metrics_port, 6770);
}
