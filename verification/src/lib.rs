//! Installer core for application packages that arrive as a single byte blob:
//! either a plain application bundle or a web-wrapped bundle (an application
//! bundle together with a zipped UI asset tree).
//!
//! The crate classifies the blob, splits a web-wrapped bundle into its
//! application-bundle component and its UI archive, derives content-addressed
//! identifiers, and plans the filesystem writes that install both components.
//! The planning functions return a list of [`action::FsAction`] values; a thin
//! host layer performs them in order.

pub mod action;
pub mod archive;
pub mod bytes;
pub mod classify;
pub mod digest;
pub mod hex;
pub mod install;
