//! The core of a small desktop helper: what it knows of its host and what it
//! keeps between runs.
//!
//! - [`raw`] is the loosely typed snapshot of the host that a metrics source
//!   hands over, and [`normalize`] turns it into the canonical [`summary`]:
//!   every field that is missing or of another shape degrades to a default,
//!   and every percentage is derived without dividing by zero.
//! - [`codec`] obfuscates stored values with a transform that is its own
//!   inverse.
//! - [`store`] is the key-value store: the mapping, the rules by which it
//!   changes, and an initialisation that is safe to run at every start.
//! - [`json`] holds what is taken on trust from the JSON parser.
//! - [`setup`] and [`shell`] hold the decisions of the window shell.
//!
//! Numbers are integers throughout: a real is held in millionths, and a
//! percentage in millionths of a percent point.

pub mod codec;
pub mod json;
pub mod normalize;
pub mod raw;
pub mod setup;
pub mod shell;
pub mod store;
pub mod summary;
