//! The arguments of the console program, as plain values.

use vstd::prelude::*;
use crate::server::DEFAULT_METRICS_PORT;

verus! {

/// Arguments of the console.
#[derive(Debug, Clone, Copy, PartialEq, Eq, Structural)]
pub struct ConsoleArgs {
    /// Port of the metrics endpoint to poll.
    pub metrics_port: u16,
}

/// The subcommands of the program.
#[derive(Debug, Clone, Copy, PartialEq, Eq, Structural)]
pub enum TCSubcommand {
    /// Start the console.
    Console(ConsoleArgs),
}

/// The arguments of the program.
#[derive(Debug, Clone, Copy, PartialEq, Eq, Structural)]
pub struct TCArgs {
    /// The subcommand, if one was given.
    pub cmd: Option<TCSubcommand>,
    /// Port of the metrics endpoint; it counts where no subcommand was given.
    pub metrics_port: u16,
}

impl TCArgs {
    /// The arguments that the console runs with: those of the subcommand, or,
    /// without a subcommand, the port given to the program itself.
    pub open spec fn console_args_spec(self) -> ConsoleArgs {
        match self.cmd {
            Some(TCSubcommand::Console(args)) => args,
            None => ConsoleArgs { metrics_port: self.metrics_port },
        }
    }

    /// The arguments that the console runs with.
    pub fn console_args(&self) -> (args: ConsoleArgs)
        ensures
            args == self.console_args_spec(),
    {
        match self.cmd {
            Some(TCSubcommand::Console(args)) => args,
            None => ConsoleArgs { metrics_port: self.metrics_port },
        }
    }
}

impl Default for TCArgs {
    /// No subcommand, the default port.
    fn default() -> (args: TCArgs)
        ensures
            args == (TCArgs { cmd: None, metrics_port: DEFAULT_METRICS_PORT }),
    {
        TCArgs { cmd: None, metrics_port: DEFAULT_METRICS_PORT }
    }
}

} // verus!
