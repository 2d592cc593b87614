//! A declarative command-line argument matcher: a tree of argument and subcommand
//! definitions is matched against a list of argument strings, giving either what each
//! argument collected or an error with the usage line of the node where it arose.

pub mod settings;
pub mod text;
pub mod arg;
pub mod matched;
pub mod error;
pub mod app;
pub mod usage;
pub mod model;
pub mod validate;
pub mod matcher;
pub mod parser;
pub mod laws;
pub mod wellformed;

pub use app::App;
pub use arg::{Arg, ArgCondition, ArgGroup};
pub use error::{Error, ErrorKind};
pub use matched::{ArgMatches, MatchedArg, SubCommand};
pub use settings::{AppSettings, Shell};
