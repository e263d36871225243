//! Hot reload of values derived from Kubernetes mounted volumes (`Secret`s, `ConfigMap`s,
//! `projected` volumes, CSI secret mounts) without restarting the pod.
//!
//! A mounted volume is not a plain set of files: it is a `..data` symlink to a timestamped
//! directory, which kubelet swaps atomically on every update. This library holds the rules of
//! following such a mount, proved, and free of I/O:
//!
//! - [`mount`] resolves a mount to one snapshot and says what its keys and values are;
//! - [`fingerprint`] takes the content hash by which a change is told;
//! - [`watch`] says what is watched and what wakes it up;
//! - [`reloader`] says what is to be done next, from the start of a watch to its end;
//! - [`snapshot`] and [`content`] state what holds of every mount and of every content, [`steps`]
//!   and [`laws`] what holds of every step of a watch and of every watch, and [`views`] what the
//!   views in all these statements show.

pub mod content;
pub mod error;
pub mod fingerprint;
pub mod laws;
pub mod mount;
pub mod order;
pub mod path;
pub mod reloader;
pub mod snapshot;
pub mod steps;
pub mod text;
pub mod views;
pub mod watch;

pub use crate::error::Error;
pub use crate::mount::Mount;
pub use crate::reloader::Reloader;
pub use crate::watch::Watch;
