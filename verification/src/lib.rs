//! Discovery of the entries of a password store.
//!
//! Every entry of the store is a file `<name>.gpg` somewhere below one root
//! directory. The entries that are there are found by a scan of the root; the
//! entries that come later are found by a watch on it. Both are run by one
//! pipeline, which sends each entry it finds to a single sink.
//!
//! This library decides; it does not act. It reads no directory, waits for no
//! notification and sends nothing. `load_and_watch_passwords` is told what
//! happened and answers with what is to be done next.

pub mod entry;
pub mod laws;
pub mod locator;
pub mod path;
pub mod pipeline;

pub use entry::{to_name, to_password, Password};
pub use locator::password_base;
pub use path::{has_file_name, join_paths};
pub use pipeline::{
    load_and_watch_passwords, load_passwords, watch_passwords, Action, Event, Failure, Phase,
    Pipeline, WatchEvent, DEBOUNCE_SECONDS,
};
