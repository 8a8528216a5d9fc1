//! Typed, validated view of the option tables a privileged command gatekeeper
//! hands to its extensions, and the fail-closed result codes handed back.
//!
//! The host describes an authorization request as a packed API version and
//! a handful of flat lists of `key=value` strings. [`version`] settles
//! whether the host can be worked with at all. [`option_map`] reads a list
//! as a table, and [`settings`], [`user_info`] and [`command_info`] read
//! tables as typed records. [`plugin`] puts a request together and works
//! out the facts that depend on more than one record. [`errors`] names
//! everything that can go wrong and the code each failure is reported with.
//! [`laws`] states what holds of every table.

pub mod command_info;
pub mod errors;
pub mod fields;
pub mod keys;
pub mod laws;
pub mod option_map;
pub mod plugin;
pub mod settings;
pub mod text;
pub mod user_info;
pub mod version;

pub use crate::command_info::CommandInfo;
pub use crate::errors::{AsSudoPluginRetval, Error, ErrorKind};
pub use crate::keys::Key;
pub use crate::option_map::{OptionMap, RawOption, ValueError};
pub use crate::plugin::Plugin;
pub use crate::settings::Settings;
pub use crate::user_info::UserInfo;
pub use crate::version::Version;
