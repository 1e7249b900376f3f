//! The rules of the worker: which actions it knows, how its
//! configuration binds them to keys, and what it does on an action.

pub mod action_listener;
pub mod cli_command;
pub mod translate;

pub use action_listener::ActionListenerParam;
pub use cli_command::CliCommand;
pub use cli_command::CliCommandError;
pub use cli_command::CliCommandHandler;
pub use cli_command::CliCommandsConfig;
pub use translate::TranslateParam;
