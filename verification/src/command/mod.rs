//! The command line: from arguments to the request that they stand for.

pub mod options;
pub mod items;
pub mod invocation;
pub mod session;
pub mod chooser;
pub mod client;
pub mod window;
pub mod buffer;
pub mod pane;
pub mod setting;
pub mod keys;
pub mod parse;
pub mod laws;
pub mod option_laws;
pub mod key_laws;
pub mod request_laws;
pub mod name_laws;
pub mod refusal_laws;
