//! Live statistics for message-passing channels: the records kept per channel,
//! the rules by which lifecycle events update them, and the text forms in which
//! they are shown.

pub mod bus;
pub mod bytes;
pub mod channel;
pub mod cli;
pub mod console;
pub mod emit;
pub mod event;
pub mod format;
pub mod guard;
pub mod label;
pub mod poll;
pub mod registry;
pub mod server;
pub mod snapshot;
pub mod stats;
pub mod table;
pub mod text;

pub use bytes::format_bytes;
pub use channel::{ChannelState, ChannelType, ParseError};
pub use cli::{ConsoleArgs, TCArgs, TCSubcommand};
pub use console::{bottom_bar_controls, Console, Control, Focus, Key};
pub use emit::{Emitter, Outcome};
pub use event::StatsEvent;
pub use format::Format;
pub use guard::{build_report, ChannelsGuard, ChannelsGuardBuilder, Elapsed, Report};
pub use label::{extract_filename, resolve_label};
pub use poll::{diff_polls, Feed, LogLine};
pub use registry::Registry;
pub use snapshot::{get_channel_stats, get_serializable_stats};
pub use stats::{ChannelStats, SerializableChannelStats};
