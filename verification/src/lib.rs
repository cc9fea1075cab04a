//! The decisions behind locking a sandbox directory on Windows.
//!
//! A sandbox directory must be locked by its real name: an access control list
//! that is written through a junction, a symlink or a mapped drive lands on a
//! directory that somebody else has chosen. This library reads the path
//! ([`wide_path`], [`drive_path`]), decides every step of opening it without
//! following a reparse point ([`no_reparse_dir`]), compares the access control
//! list that is there with the required one ([`explicit_dacl`]), and says how a
//! lock goes on ([`sandbox_lock`]). It makes no system call itself.

pub mod drive_path;
pub mod drive_path_laws;
pub mod error;
pub mod explicit_dacl;
pub mod explicit_dacl_laws;
pub mod no_reparse_dir;
pub mod no_reparse_laws;
pub mod no_reparse_reply_laws;
pub mod nt;
pub mod report_laws;
pub mod sandbox_lock;
pub mod security_text;
pub mod text;
pub mod wide_path;
pub mod wide_path_laws;
